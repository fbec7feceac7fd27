//! Data files for the mock distribution server and forward proxy.
//!
//! Both programs write a small `key=value` data file describing how to reach
//! them, so that tests can find the (possibly OS-assigned) port and the rest of
//! the runtime configuration without parsing program output.

use std::path::PathBuf;

use vstd::prelude::*;

use crate::data_map::DataMap;
use crate::text::{decimal_text, split_at_char, split_lines};

verus! {

broadcast use vstd::string::group_string_axioms;

/// `std::path::PathBuf`, of which nothing is claimed: paths are carried, not looked into.
#[verifier::external_type_specification]
#[verifier::external_body]
pub struct ExPathBuf(PathBuf);

/// The key/value pairs of `lines`. A line is split at its first `=`; a line without one is passed
/// over, and of two lines with one key the later counts.
pub open spec fn parse_lines(lines: Seq<Seq<char>>) -> Map<Seq<char>, Seq<char>>
    decreases lines.len(),
{
    if lines.len() == 0 {
        Map::empty()
    } else {
        let before = parse_lines(lines.drop_last());
        match crate::text::split_once(lines.last(), '=') {
            Some((key, value)) => before.insert(key, value),
            None => before,
        }
    }
}

/// The key/value pairs of a data file with this content.
pub open spec fn parse_content(content: Seq<char>) -> Map<Seq<char>, Seq<char>> {
    parse_lines(crate::text::lines(content))
}

/// One line of a data file.
pub open spec fn field_line(field: (Seq<char>, Seq<char>)) -> Seq<char> {
    field.0 + seq!['='] + field.1 + seq!['\n']
}

/// The content of a data file with these fields, in this order.
pub open spec fn render(fields: Seq<(Seq<char>, Seq<char>)>) -> Seq<char>
    decreases fields.len(),
{
    if fields.len() == 0 {
        seq![]
    } else {
        render(fields.drop_last()) + field_line(fields.last())
    }
}

/// The field that records `value` under `key`, if there is a value.
pub open spec fn optional_field(key: Seq<char>, value: Option<Seq<char>>) -> Seq<
    (Seq<char>, Seq<char>),
> {
    match value {
        Some(value) => seq![(key, value)],
        None => seq![],
    }
}

/// The fields that describe a listening process.
pub open spec fn fields(
    addr: Seq<char>,
    port: nat,
    pid: nat,
    credential: Option<Seq<char>>,
    directory: Option<Seq<char>>,
) -> Seq<(Seq<char>, Seq<char>)> {
    seq![
        ("addr"@, addr),
        ("port"@, crate::text::decimal(port)),
        ("pid"@, crate::text::decimal(pid)),
    ] + optional_field("credential"@, credential) + optional_field("directory"@, directory)
}

/// The name of the file that the content is written to before it is moved into place.
pub open spec fn temp_name(file_name: Option<Seq<char>>) -> Seq<char> {
    "."@ + (match file_name {
        Some(name) => name,
        None => "data"@,
    }) + ".tmp"@
}

/// Where a data file lies unless the user says otherwise: `names` joined to `base` one by one.
pub struct DefaultPath {
    pub base: PathBuf,
    pub names: Vec<String>,
}

/// What the default location depends on.
pub struct Environment {
    /// Whether the program runs on Windows.
    pub windows: bool,
    /// `%LOCALAPPDATA%`.
    pub local_app_data: Option<PathBuf>,
    /// `${HOME}`.
    pub home: Option<PathBuf>,
    /// The system temporary directory.
    pub temp_dir: PathBuf,
}

/// What is done next to put a data file in place.
#[derive(Clone, Copy, Debug, PartialEq, Eq, Structural)]
pub enum WriteStage {
    /// Create the directory that holds the file, with its parents.
    CreateParent,
    /// Write the content to the temporary file beside the data file.
    WriteTemp,
    /// Move the temporary file to the place of the data file.
    RenameTemp,
    /// The data file is in place.
    Finished,
    /// The last operation failed, and no other follows it.
    Failed,
}

/// The stage that follows `stage`.
pub open spec fn next_stage(stage: WriteStage, succeeded: bool) -> WriteStage {
    match stage {
        WriteStage::Finished => WriteStage::Finished,
        WriteStage::Failed => WriteStage::Failed,
        WriteStage::CreateParent => if succeeded { WriteStage::WriteTemp } else { WriteStage::Failed },
        WriteStage::WriteTemp => if succeeded { WriteStage::RenameTemp } else { WriteStage::Failed },
        WriteStage::RenameTemp => if succeeded { WriteStage::Finished } else { WriteStage::Failed },
    }
}

/// The writing of a data file, in progress.
pub struct DataFileWrite {
    pub stage: WriteStage,
    /// The name of the temporary file, in the directory of the data file.
    pub temp_name: String,
    pub content: String,
}

impl DataFileWrite {
    /// Goes on to the next stage, given whether the operation of this one succeeded.
    pub fn advance(&mut self, succeeded: bool)
        ensures
            final(self).stage == next_stage(old(self).stage, succeeded),
            final(self).temp_name == old(self).temp_name,
            final(self).content == old(self).content,
    {
        self.stage = match self.stage {
            WriteStage::Finished => WriteStage::Finished,
            WriteStage::Failed => WriteStage::Failed,
            WriteStage::CreateParent => if succeeded {
                WriteStage::WriteTemp
            } else {
                WriteStage::Failed
            },
            WriteStage::WriteTemp => if succeeded {
                WriteStage::RenameTemp
            } else {
                WriteStage::Failed
            },
            WriteStage::RenameTemp => if succeeded {
                WriteStage::Finished
            } else {
                WriteStage::Failed
            },
        };
    }
}

/// Appends the line that records `value` under `key`.
fn push_field(content: &mut String, key: &str, value: &str)
    ensures
        final(content)@ == old(content)@ + field_line((key@, value@)),
{
    proof {
        reveal_strlit("=");
        reveal_strlit("\n");
    }
    content.append(key);
    content.append("=");
    content.append(value);
    content.append("\n");
    assert("="@ == seq!['=']);
    assert("\n"@ == seq!['\n']);
}

/// A data file describing a running mock distribution server or forward proxy.
///
/// The file contains one `key=value` pair per line:
///
/// | Key          | Description                                             |
/// | ------------ | ------------------------------------------------------- |
/// | `addr`       | The address the process is listening on                 |
/// | `port`       | The port the process is listening on                    |
/// | `pid`        | The process id of the process                           |
/// | `credential` | The basic test credential in use (only if configured)   |
/// | `directory`  | The directory being served (mock server only)           |
pub struct MockDataFile {
    path: PathBuf,
}

impl MockDataFile {
    /// Where the data file lies.
    pub closed spec fn location(&self) -> PathBuf {
        self.path
    }

    /// Wraps a data file at `path`.
    pub fn new(path: PathBuf) -> (r: MockDataFile)
        ensures
            r.location() == path,
    {
        MockDataFile { path }
    }

    /// The location of the data file.
    pub fn path(&self) -> (r: &PathBuf)
        ensures
            *r == self.location(),
    {
        &self.path
    }

    /// The default data file location for a mock program: `${HOME}/.local/share/<name>.data`, or
    /// `%LOCALAPPDATA%\<name>.data` on Windows.
    ///
    /// Without `%LOCALAPPDATA%` the first form is used on Windows too, and without `${HOME}` the
    /// system temporary directory holds the file.
    pub fn default_path(environment: Environment, name: &str) -> (r: DefaultPath)
        ensures
            environment.windows && environment.local_app_data is Some ==> {
                &&& r.base == environment.local_app_data->0
                &&& crate::text::views(r.names@) == seq![name@ + ".data"@]
            },
            !(environment.windows && environment.local_app_data is Some) ==> {
                &&& environment.home matches Some(home) ==> r.base == home
                    && crate::text::views(r.names@) == seq![".local"@, "share"@, name@ + ".data"@]
                &&& environment.home is None ==> r.base == environment.temp_dir
                    && crate::text::views(r.names@) == seq![name@ + ".data"@]
            },
    {
        match environment.local_app_data {
            Some(base) if environment.windows => {
                let mut names: Vec<String> = Vec::new();
                names.push(data_file_name(name));
                assert(crate::text::views(names@) =~= seq![name@ + ".data"@]);
                DefaultPath { base, names }
            },
            _ => Self::default_path_at(environment.home, environment.temp_dir, name),
        }
    }

    /// The default data file location when `HOME` is `home`, or in `temp_dir`, the system
    /// temporary directory, when `home` is `None`.
    pub fn default_path_at(home: Option<PathBuf>, temp_dir: PathBuf, name: &str) -> (r: DefaultPath)
        ensures
            match home {
                Some(home) => r.base == home && crate::text::views(r.names@) == seq![
                    ".local"@,
                    "share"@,
                    name@ + ".data"@,
                ],
                None => r.base == temp_dir && crate::text::views(r.names@) == seq![
                    name@ + ".data"@,
                ],
            },
    {
        let mut names: Vec<String> = Vec::new();
        match home {
            Some(home) => {
                names.push(".local".to_owned());
                names.push("share".to_owned());
                names.push(data_file_name(name));
                assert(crate::text::views(names@) =~= seq![
                    ".local"@,
                    "share"@,
                    name@ + ".data"@,
                ]);
                DefaultPath { base: home, names }
            },
            None => {
                names.push(data_file_name(name));
                assert(crate::text::views(names@) =~= seq![name@ + ".data"@]);
                DefaultPath { base: temp_dir, names }
            },
        }
    }

    /// Begins to write the data file of a listening process, in place of any that exists.
    ///
    /// `has_parent` says whether the path of the file names a directory that holds it, and
    /// `file_name` is the last part of that path, where it has one that is text. `credential` is
    /// recorded only when the process uses basic test credentials, and `directory` (mock server
    /// only) records the served directory.
    pub fn write(
        has_parent: bool,
        file_name: Option<&str>,
        addr: &str,
        port: u16,
        pid: u32,
        credential: Option<&str>,
        directory: Option<&str>,
    ) -> (r: DataFileWrite)
        ensures
            r.stage == (if has_parent { WriteStage::CreateParent } else { WriteStage::WriteTemp }),
            r.temp_name@ == temp_name(crate::text::opt_view(file_name)),
            r.temp_name@ == seq!['.'] + (match file_name {
                Some(name) => name@,
                None => seq!['d', 'a', 't', 'a'],
            }) + seq!['.', 't', 'm', 'p'],
            r.content@ == render(
                fields(
                    addr@,
                    port as nat,
                    pid as nat,
                    crate::text::opt_view(credential),
                    crate::text::opt_view(directory),
                ),
            ),
    {
        let ghost all = fields(
            addr@,
            port as nat,
            pid as nat,
            crate::text::opt_view(credential),
            crate::text::opt_view(directory),
        );
        let mut content: String = String::new();
        assert(content@ == render(all.take(0)));
        push_field(&mut content, "addr", addr);
        assert(all.take(1).drop_last() == all.take(0));
        assert(content@ == render(all.take(1)));
        push_field(&mut content, "port", decimal_text(port as u32).as_str());
        assert(all.take(2).drop_last() == all.take(1));
        assert(content@ == render(all.take(2)));
        push_field(&mut content, "pid", decimal_text(pid).as_str());
        assert(all.take(3).drop_last() == all.take(2));
        assert(content@ == render(all.take(3)));
        let ghost mut n: int = 3;
        if let Some(credential) = credential {
            push_field(&mut content, "credential", credential);
            assert(all.take(4).drop_last() == all.take(3));
            assert(content@ == render(all.take(4)));
            proof {
                n = 4;
            }
        }
        if let Some(directory) = directory {
            push_field(&mut content, "directory", directory);
            assert(all.take(n + 1).drop_last() == all.take(n));
            assert(content@ == render(all.take(n + 1)));
            proof {
                n = n + 1;
            }
        }
        assert(all.take(n) == all);

        let mut temp: String = ".".to_owned();
        match file_name {
            Some(name) => temp.append(name),
            None => temp.append("data"),
        }
        temp.append(".tmp");
        proof {
            reveal_strlit(".");
            reveal_strlit("data");
            reveal_strlit(".tmp");
            assert("."@ == seq!['.']);
            assert("data"@ == seq!['d', 'a', 't', 'a']);
            assert(".tmp"@ == seq!['.', 't', 'm', 'p']);
        }
        let stage = if has_parent {
            WriteStage::CreateParent
        } else {
            WriteStage::WriteTemp
        };
        DataFileWrite { stage, temp_name: temp, content }
    }

    /// The value stored under `key`, given what the file holds, or `None` if it cannot be read.
    pub fn get(content: Option<&str>, key: &str) -> (r: Option<String>)
        ensures
            content is None ==> r is None,
            content matches Some(content) ==> match r {
                Some(value) => parse_content(content@).contains_key(key@) && parse_content(
                    content@,
                )[key@] == value@,
                None => !parse_content(content@).contains_key(key@),
            },
    {
        match content {
            Some(content) => match Self::parse(content).get(key) {
                Some(value) => Some(value.clone()),
                None => None,
            },
            None => None,
        }
    }

    /// Parses data file content into key/value pairs.
    pub fn parse(content: &str) -> (r: DataMap)
        ensures
            r@ == parse_content(content@),
    {
        let lines: Vec<String> = split_lines(content);
        let ghost texts = crate::text::views(lines@);
        let mut map: DataMap = DataMap::new();
        let n: usize = lines.len();
        let mut i: usize = 0;
        while i < n
            invariant
                n == lines.len(),
                i <= n,
                texts == crate::text::views(lines@),
                map@ == parse_lines(texts.take(i as int)),
            decreases n - i,
        {
            assert(texts.take(i + 1).drop_last() == texts.take(i as int));
            if let Some((name, value)) = split_at_char(lines[i].as_str(), '=') {
                map.insert(name, value);
            }
            i = i + 1;
        }
        assert(texts.take(n as int) == texts);
        map
    }
}

/// The name of the data file of the program `name`.
fn data_file_name(name: &str) -> (r: String)
    ensures
        r@ == name@ + ".data"@,
{
    let mut file_name: String = name.to_owned();
    file_name.append(".data");
    file_name
}

} // verus!
