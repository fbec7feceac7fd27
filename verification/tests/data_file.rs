//! Data files: what is written, what is read back, and where they lie.

use std::path::{Path, PathBuf};

use rustup_mock::data_map::{text_precedes, DataMap};
use rustup_mock::mock_data::{DataFileWrite, DefaultPath, Environment, MockDataFile, WriteStage};
use rustup_mock::text::{decimal_text, find_char, split_at_char, split_lines, trim_start_char};

/// The path that a default location stands for.
fn joined(default: DefaultPath) -> PathBuf {
    let mut path = default.base;
    path.extend(default.names);
    path
}

/// Begins to write the data file at `path`.
fn write_at(
    path: &Path,
    addr: &str,
    port: u16,
    pid: u32,
    credential: Option<&str>,
    directory: Option<&Path>,
) -> DataFileWrite {
    let directory = directory.map(|directory| directory.display().to_string());
    MockDataFile::write(
        path.parent().is_some(),
        path.file_name().and_then(|name| name.to_str()),
        addr,
        port,
        pid,
        credential,
        directory.as_deref(),
    )
}

/// The pairs of `map`, in its order.
fn pairs(map: &DataMap) -> Vec<(&str, &str)> {
    map.entries()
        .iter()
        .map(|(key, value)| (key.as_str(), value.as_str()))
        .collect()
}

#[test]
fn data_file_round_trip() {
    let tmp = tempfile::Builder::new()
        .prefix("mock-data-")
        .tempdir()
        .unwrap();
    let path = tmp.path().join("mock-server.data");
    let data = MockDataFile::new(path.clone());
    assert_eq!(data.path(), &path);

    let write = write_at(
        data.path(),
        "127.0.0.1",
        43211,
        4242,
        Some("testuser:testpass"),
        Some(tmp.path()),
    );
    let content = Some(write.content.as_str());

    assert_eq!(MockDataFile::get(content, "addr").as_deref(), Some("127.0.0.1"));
    assert_eq!(MockDataFile::get(content, "port").as_deref(), Some("43211"));
    assert_eq!(MockDataFile::get(content, "pid").as_deref(), Some("4242"));
    assert_eq!(
        MockDataFile::get(content, "credential").as_deref(),
        Some("testuser:testpass")
    );
    assert_eq!(
        MockDataFile::get(content, "directory").as_deref(),
        Some(tmp.path().display().to_string().as_str())
    );
    assert_eq!(MockDataFile::get(content, "missing"), None);
}

#[test]
fn data_file_omits_unset_optionals() {
    let tmp = tempfile::Builder::new()
        .prefix("mock-data-")
        .tempdir()
        .unwrap();
    let path = tmp.path().join("mock-proxy.data");

    let write = write_at(&path, "127.0.0.1", 43211, 4242, None, None);

    assert!(!write.content.contains("credential="));
    assert!(!write.content.contains("directory="));
    assert_eq!(
        MockDataFile::get(Some(&write.content), "port").as_deref(),
        Some("43211")
    );
}

#[test]
fn default_path_lives_under_local_share() {
    let path = joined(MockDataFile::default_path_at(
        Some(PathBuf::from("/home/tester")),
        PathBuf::from("/tmp"),
        "rustup-mock-server",
    ));

    // Compare the final components rather than a rendered string, so the
    // assertion holds on every platform (path separators differ).
    let mut components = path.components().rev().take(3).collect::<Vec<_>>();
    components.reverse();
    let names = components
        .iter()
        .map(|component| component.as_os_str().to_str().unwrap())
        .collect::<Vec<_>>();
    assert_eq!(names, [".local", "share", "rustup-mock-server.data"]);
    assert!(path.starts_with("/home/tester"));

    // Without `HOME` the file lives directly in the temporary directory.
    let path = joined(MockDataFile::default_path_at(
        None,
        PathBuf::from("/tmp"),
        "rustup-mock-proxy",
    ));
    assert_eq!(
        path.file_name().and_then(|name| name.to_str()),
        Some("rustup-mock-proxy.data")
    );
    assert_eq!(path.parent(), Some(Path::new("/tmp")));
}

#[test]
fn default_path_on_each_platform() {
    let environment = |windows: bool, local_app_data: Option<&str>, home: Option<&str>| Environment {
        windows,
        local_app_data: local_app_data.map(PathBuf::from),
        home: home.map(PathBuf::from),
        temp_dir: PathBuf::from("temp"),
    };
    let default = |environment| joined(MockDataFile::default_path(environment, "rustup-mock-server"));
    let below_home = Path::new("home")
        .join(".local")
        .join("share")
        .join("rustup-mock-server.data");

    assert_eq!(
        default(environment(true, Some("local"), Some("home"))),
        Path::new("local").join("rustup-mock-server.data")
    );
    assert_eq!(default(environment(true, None, Some("home"))), below_home);
    assert_eq!(default(environment(false, Some("local"), Some("home"))), below_home);
    assert_eq!(
        default(environment(false, Some("local"), None)),
        Path::new("temp").join("rustup-mock-server.data")
    );
    assert_eq!(
        default(environment(true, None, None)),
        Path::new("temp").join("rustup-mock-server.data")
    );
}

#[test]
fn data_file_content_is_one_pair_per_line() {
    let path = Path::new("/run/mock-server.data");
    let write = write_at(path, "::1", 0, 1, Some("u:p"), Some(Path::new("/srv/dist")));
    assert_eq!(
        write.content,
        "addr=::1\nport=0\npid=1\ncredential=u:p\ndirectory=/srv/dist\n"
    );
    let write = write_at(path, "::1", 65535, 4294967295, None, None);
    assert_eq!(write.content, "addr=::1\nport=65535\npid=4294967295\n");
    let write = write_at(path, "::1", 80, 9, None, Some(Path::new("d")));
    assert_eq!(write.content, "addr=::1\nport=80\npid=9\ndirectory=d\n");
}

#[test]
fn data_file_is_written_beside_its_place_and_moved() {
    let mut write = write_at(Path::new("/run/a.data"), "h", 1, 2, None, None);
    let content = write.content.clone();
    assert_eq!(write.temp_name, ".a.data.tmp");
    assert_eq!(write.stage, WriteStage::CreateParent);
    write.advance(true);
    assert_eq!(write.stage, WriteStage::WriteTemp);
    write.advance(true);
    assert_eq!(write.stage, WriteStage::RenameTemp);
    write.advance(true);
    assert_eq!(write.stage, WriteStage::Finished);
    write.advance(false);
    assert_eq!(write.stage, WriteStage::Finished);
    assert_eq!(write.temp_name, ".a.data.tmp");
    assert_eq!(write.content, content);
}

#[test]
fn writing_stops_at_the_first_failure() {
    for failing in 0..3 {
        let mut write = write_at(Path::new("/run/a.data"), "h", 1, 2, None, None);
        for _ in 0..failing {
            write.advance(true);
        }
        write.advance(false);
        assert_eq!(write.stage, WriteStage::Failed);
        write.advance(true);
        assert_eq!(write.stage, WriteStage::Failed);
    }
}

#[test]
fn path_without_parent_or_name() {
    let write = write_at(Path::new("/"), "h", 1, 2, None, None);
    assert_eq!(write.stage, WriteStage::WriteTemp);
    assert_eq!(write.temp_name, ".data.tmp");
}

#[test]
fn parse_splits_lines_at_the_first_equals_sign() {
    let map = MockDataFile::parse("b=1=2\r\nno separator\n\na=\n=x\nb=3");
    assert_eq!(pairs(&map), [("", "x"), ("a", ""), ("b", "3")]);
    assert_eq!(map.get("b").map(String::as_str), Some("3"));
    assert_eq!(map.get("a").map(String::as_str), Some(""));
    assert_eq!(map.get("c"), None);
    assert!(MockDataFile::parse("").entries().is_empty());
    let map = MockDataFile::parse("k=v=w");
    assert_eq!(pairs(&map), [("k", "v=w")]);
}

#[test]
fn get_without_a_readable_file() {
    assert_eq!(MockDataFile::get(None, "addr"), None);
    assert_eq!(MockDataFile::get(Some("addr=h\n"), "addr").as_deref(), Some("h"));
}

#[test]
fn values_that_are_no_single_line_are_not_read_back() {
    let path = Path::new("/run/a.data");
    let write = write_at(path, "h", 43211, 2, Some("a:b\nport=1"), None);
    let content = Some(write.content.as_str());
    assert_eq!(MockDataFile::get(content, "credential").as_deref(), Some("a:b"));
    assert_eq!(MockDataFile::get(content, "port").as_deref(), Some("1"));
    let write = write_at(path, "h", 1, 2, Some("a:b\r"), None);
    assert_eq!(
        MockDataFile::get(Some(&write.content), "credential").as_deref(),
        Some("a:b")
    );
    let write = write_at(path, "h", 1, 2, Some("a=b:\rc"), None);
    assert_eq!(
        MockDataFile::get(Some(&write.content), "credential").as_deref(),
        Some("a=b:\rc")
    );
}

#[test]
fn parsed_data_is_what_a_sorted_map_holds() {
    let content = "pid=1\naddr=h\nport=2\naddr=i\n\u{e9}=x\nz=y\nPid=3\np=4\n";
    let expected: std::collections::BTreeMap<String, String> = content
        .lines()
        .filter_map(|line| line.split_once('='))
        .map(|(name, value)| (name.to_string(), value.to_string()))
        .collect();
    let map = MockDataFile::parse(content);
    let expected: Vec<(&str, &str)> = expected
        .iter()
        .map(|(key, value)| (key.as_str(), value.as_str()))
        .collect();
    assert_eq!(pairs(&map), expected);
}

#[test]
fn map_keeps_the_later_value() {
    let mut map = DataMap::new();
    map.insert("b".to_string(), "1".to_string());
    map.insert("a".to_string(), "2".to_string());
    map.insert("b".to_string(), "3".to_string());
    assert_eq!(pairs(&map), [("a", "2"), ("b", "3")]);
}

#[test]
fn texts_are_ordered_as_std_orders_them() {
    let texts = ["", "a", "ab", "b", "A", "\u{e9}", "\u{10000}", "\u{ffff}", "a\u{e9}"];
    for a in texts {
        for b in texts {
            assert_eq!(text_precedes(a, b), a < b);
        }
    }
}

#[test]
fn text_helpers_agree_with_std() {
    let texts = [
        "", "/", "//a/b", "a//", "\u{e9}/x", "a\nb\r\nc", "\r\n", "\n\n", "a\r", "a\n\rb\n", "x\r\r\n",
    ];
    for text in texts {
        let lines: Vec<&str> = text.lines().collect();
        assert_eq!(split_lines(text), lines);
        assert_eq!(trim_start_char(text, '/'), text.trim_start_matches('/'));
        let split = text
            .split_once('/')
            .map(|(before, after)| (before.to_string(), after.to_string()));
        assert_eq!(split_at_char(text, '/'), split);
        assert_eq!(find_char(text, '/'), text.chars().position(|c| c == '/'));
    }
}

#[test]
fn decimal_texts_are_read_back() {
    for n in [0, 1, 9, 10, 99, 100, 4242, 43211, 65535, 4294967295] {
        assert_eq!(decimal_text(n), n.to_string());
        assert_eq!(decimal_text(n).parse::<u32>(), Ok(n));
    }
}
