//! What a data file gives back of what was written to it.

use vstd::prelude::*;

verus! {

/// Whether a value survives being one line of a data file: it holds no line feed, and does not end
/// with a carriage return, which would be taken for a part of the line's end.
pub open spec fn line_safe(value: Seq<char>) -> bool {
    !value.contains('\n') && (value.len() == 0 || value.last() != '\r')
}

/// The map from the keys of `fields` to their values, the later of two equal keys counting.
pub open spec fn fields_map(fields: Seq<(Seq<char>, Seq<char>)>) -> Map<Seq<char>, Seq<char>>
    decreases fields.len(),
{
    if fields.len() == 0 {
        Map::empty()
    } else {
        fields_map(fields.drop_last()).insert(fields.last().0, fields.last().1)
    }
}

/// Whether every key can be told from its value and no key occurs twice.
pub open spec fn plain_keys(fields: Seq<(Seq<char>, Seq<char>)>) -> bool {
    &&& forall|i: int|
        0 <= i < fields.len() ==> !(#[trigger] fields[i]).0.contains('=')
            && !fields[i].0.contains('\n')
    &&& forall|i: int, j: int|
        0 <= i < j < fields.len() ==> (#[trigger] fields[i]).0 != (#[trigger] fields[j]).0
}

/// Text that ends with a line feed can be split into lines on its own.
proof fn lemma_lines_concat(x: Seq<char>, y: Seq<char>)
    requires
        x.len() == 0 || x.last() == '\n',
    ensures
        crate::text::lines(x + y) == crate::text::lines(x) + crate::text::lines(y),
    decreases x.len(),
{
    if x.len() == 0 {
        assert(x + y == y);
    } else {
        assert(x[x.len() - 1] == '\n');
        crate::text::lemma_first_index(x, '\n');
        let i = crate::text::first_index(x, '\n');
        assert((x + y)[i] == '\n');
        assert forall|j: int| 0 <= j < i implies (x + y)[j] != '\n' by {
            assert((x + y)[j] == x[j]);
        }
        crate::text::lemma_first_index_unique(x + y, '\n', i);
        let rest = x.skip(i + 1);
        if rest.len() > 0 {
            assert(rest.last() == x.last());
        }
        lemma_lines_concat(rest, y);
        assert((x + y).take(i) == x.take(i));
        assert((x + y).skip(i + 1) == rest + y);
        let first = seq![crate::text::strip_return(x.take(i))];
        assert(first + (crate::text::lines(rest) + crate::text::lines(y)) == (first
            + crate::text::lines(rest)) + crate::text::lines(y));
    }
}

/// No line holds a line feed.
proof fn lemma_lines_hold_no_feed(s: Seq<char>, i: int)
    requires
        0 <= i < crate::text::lines(s).len(),
    ensures
        !crate::text::lines(s)[i].contains('\n'),
    decreases s.len(),
{
    if s.contains('\n') {
        crate::text::lemma_first_index(s, '\n');
        let n = crate::text::first_index(s, '\n');
        if i > 0 {
            lemma_lines_hold_no_feed(s.skip(n + 1), i - 1);
        } else {
            let line = crate::text::lines(s)[0];
            assert forall|j: int| 0 <= j < line.len() implies line[j] != '\n' by {
                assert(line[j] == s[j]);
            }
        }
    }
}

/// No value that is parsed out of a data file holds a line feed.
proof fn lemma_values_hold_no_feed(lines: Seq<Seq<char>>, key: Seq<char>)
    requires
        forall|i: int| 0 <= i < lines.len() ==> !(#[trigger] lines[i]).contains('\n'),
        crate::mock_data::parse_lines(lines).contains_key(key),
    ensures
        !crate::mock_data::parse_lines(lines)[key].contains('\n'),
    decreases lines.len(),
{
    let last = lines.last();
    let n = crate::text::first_index(last, '=');
    crate::text::lemma_first_index(last, '=');
    if last.contains('=') && key == last.take(n) {
        let value = last.skip(n + 1);
        assert forall|j: int| 0 <= j < value.len() implies value[j] != '\n' by {
            assert(value[j] == last[n + 1 + j]);
        }
    } else {
        assert forall|i: int| 0 <= i < lines.drop_last().len() implies !(
        #[trigger] lines.drop_last()[i]).contains('\n') by {
            assert(lines.drop_last()[i] == lines[i]);
        }
        lemma_values_hold_no_feed(lines.drop_last(), key);
    }
}

/// A field without line feeds is one line, which splits back into the key and the value.
proof fn lemma_field_line(key: Seq<char>, value: Seq<char>)
    requires
        !key.contains('='),
        !key.contains('\n'),
        !value.contains('\n'),
    ensures
        crate::text::lines(crate::mock_data::field_line((key, value))).len() == 1,
        crate::text::split_once(
            crate::text::lines(crate::mock_data::field_line((key, value)))[0],
            '=',
        ) == Some((key, crate::text::strip_return(value))),
{
    let whole = crate::mock_data::field_line((key, value));
    let line = key + seq!['='] + value;
    let n = line.len() as int;
    assert(whole == line.push('\n'));
    assert forall|j: int| 0 <= j < n implies whole[j] != '\n' by {
        if j < key.len() {
            assert(whole[j] == key[j]);
        } else if j > key.len() {
            assert(whole[j] == value[j - key.len() - 1]);
        }
    }
    crate::text::lemma_first_index_unique(whole, '\n', n);
    assert(whole.take(n) == line);
    assert(whole.skip(n + 1) == Seq::<char>::empty());
    reveal_with_fuel(crate::text::lines, 2);
    let stripped = crate::text::strip_return(line);
    assert(stripped == key + seq!['='] + crate::text::strip_return(value));
    assert(crate::text::lines(whole) == seq![stripped]);
    assert forall|j: int| 0 <= j < key.len() implies stripped[j] != '=' by {
        assert(stripped[j] == key[j]);
    }
    crate::text::lemma_first_index_unique(stripped, '=', key.len() as int);
    assert(stripped.take(key.len() as int) == key);
    assert(stripped.skip(key.len() as int + 1) == crate::text::strip_return(value));
}

/// Rendered fields are empty or end with a line feed.
proof fn lemma_render_ends(fields: Seq<(Seq<char>, Seq<char>)>)
    ensures
        ({
            let content = crate::mock_data::render(fields);
            content.len() == 0 || content.last() == '\n'
        }),
{
}

/// The fields with each value as it is after the end of its line is taken off.
spec fn stripped(fields: Seq<(Seq<char>, Seq<char>)>) -> Seq<(Seq<char>, Seq<char>)> {
    fields.map_values(
        |f: (Seq<char>, Seq<char>)| (f.0, crate::text::strip_return(f.1)),
    )
}

/// Where no value holds a line feed, each field is read back but for a carriage return at its end.
proof fn lemma_parse_render(fields: Seq<(Seq<char>, Seq<char>)>)
    requires
        plain_keys(fields),
        forall|i: int| 0 <= i < fields.len() ==> !(#[trigger] fields[i]).1.contains('\n'),
    ensures
        crate::mock_data::parse_content(crate::mock_data::render(fields)) == fields_map(
            stripped(fields),
        ),
    decreases fields.len(),
{
    if fields.len() == 0 {
        assert(crate::text::lines(crate::mock_data::render(fields)).len() == 0);
    } else {
        let front = fields.drop_last();
        let last = fields.last();
        assert forall|i: int| 0 <= i < front.len() implies #[trigger] front[i] == fields[i] by {}
        lemma_parse_render(front);
        lemma_render_ends(front);
        lemma_lines_concat(
            crate::mock_data::render(front),
            crate::mock_data::field_line(last),
        );
        assert(fields[fields.len() - 1] == last);
        lemma_field_line(last.0, last.1);
        let all = crate::text::lines(crate::mock_data::render(fields));
        let line = crate::text::lines(crate::mock_data::field_line(last))[0];
        assert(all.drop_last() == crate::text::lines(crate::mock_data::render(front)));
        assert(all.last() == line);
        assert(stripped(fields).drop_last() == stripped(front));
    }
}

/// A field of a list without equal keys is found under its key, and nothing else is.
proof fn lemma_fields_map(fields: Seq<(Seq<char>, Seq<char>)>)
    requires
        forall|i: int, j: int|
            0 <= i < j < fields.len() ==> (#[trigger] fields[i]).0 != (#[trigger] fields[j]).0,
    ensures
        forall|i: int|
            0 <= i < fields.len() ==> fields_map(fields).contains_key((#[trigger] fields[i]).0)
                && fields_map(fields)[fields[i].0] == fields[i].1,
        forall|k: Seq<char>|
            #[trigger] fields_map(fields).contains_key(k) ==> exists|i: int|
                0 <= i < fields.len() && (#[trigger] fields[i]).0 == k,
    decreases fields.len(),
{
    if fields.len() > 0 {
        let front = fields.drop_last();
        let n = fields.len() - 1;
        assert forall|i: int| 0 <= i < front.len() implies #[trigger] front[i] == fields[i] by {}
        lemma_fields_map(front);
        assert forall|i: int| 0 <= i < fields.len() implies fields_map(fields).contains_key(
            (#[trigger] fields[i]).0,
        ) && fields_map(fields)[fields[i].0] == fields[i].1 by {
            if i < n {
                assert(front[i] == fields[i]);
                assert(fields[i].0 != fields[n].0);
            }
        }
        assert forall|k: Seq<char>| #[trigger]
            fields_map(fields).contains_key(k) implies exists|i: int|
            0 <= i < fields.len() && (#[trigger] fields[i]).0 == k by {
            if k == fields.last().0 {
                assert(fields[n].0 == k);
            } else {
                assert(fields_map(front).contains_key(k));
                let i = choose|i: int| 0 <= i < front.len() && (#[trigger] front[i]).0 == k;
                assert(fields[i].0 == k);
            }
        }
    }
}

/// A list of fields is read back as it was rendered exactly if all of its values are line-safe.
pub proof fn law_render_then_parse(fields: Seq<(Seq<char>, Seq<char>)>)
    requires
        plain_keys(fields),
    ensures
        crate::mock_data::parse_content(crate::mock_data::render(fields)) == fields_map(fields)
            <==> (forall|i: int| 0 <= i < fields.len() ==> line_safe((#[trigger] fields[i]).1)),
{
    let content = crate::mock_data::render(fields);
    let parsed = crate::mock_data::parse_content(content);
    let feedless = forall|i: int| 0 <= i < fields.len() ==> !(#[trigger] fields[i]).1.contains('\n');
    lemma_fields_map(fields);
    if feedless {
        lemma_parse_render(fields);
        let kept = stripped(fields);
        assert forall|i: int, j: int| 0 <= i < j < kept.len() implies (#[trigger] kept[i]).0 != (
        #[trigger] kept[j]).0 by {
            assert(kept[i].0 == fields[i].0 && kept[j].0 == fields[j].0);
            assert(fields[i].0 != fields[j].0);
        }
        lemma_fields_map(kept);
        if parsed == fields_map(fields) {
            assert forall|i: int| 0 <= i < fields.len() implies line_safe(
                (#[trigger] fields[i]).1,
            ) by {
                assert(kept[i].0 == fields[i].0);
                assert(kept[i].1 == crate::text::strip_return(fields[i].1));
            }
        }
        if forall|i: int| 0 <= i < fields.len() ==> line_safe((#[trigger] fields[i]).1) {
            assert forall|i: int| 0 <= i < fields.len() implies kept[i] == fields[i] by {
                assert(line_safe(fields[i].1));
            }
            assert(kept == fields);
        }
    } else {
        let i = choose|i: int| 0 <= i < fields.len() && (#[trigger] fields[i]).1.contains('\n');
        if parsed == fields_map(fields) {
            let lines = crate::text::lines(content);
            assert forall|j: int| 0 <= j < lines.len() implies !(#[trigger] lines[j]).contains(
                '\n',
            ) by {
                lemma_lines_hold_no_feed(content, j);
            }
            assert(parsed.contains_key(fields[i].0));
            lemma_values_hold_no_feed(lines, fields[i].0);
        }
        assert(!line_safe(fields[i].1));
    }
}

/// The keys of a data file can be told from their values, and none occurs twice.
proof fn lemma_keys(
    addr: Seq<char>,
    port: nat,
    pid: nat,
    credential: Option<Seq<char>>,
    directory: Option<Seq<char>>,
)
    ensures
        plain_keys(crate::mock_data::fields(addr, port, pid, credential, directory)),
        "addr"@ != "port"@,
        "addr"@ != "pid"@,
        "addr"@ != "credential"@,
        "addr"@ != "directory"@,
        "port"@ != "pid"@,
        "port"@ != "credential"@,
        "port"@ != "directory"@,
        "pid"@ != "credential"@,
        "pid"@ != "directory"@,
        "credential"@ != "directory"@,
{
    reveal_strlit("addr");
    reveal_strlit("port");
    reveal_strlit("pid");
    reveal_strlit("credential");
    reveal_strlit("directory");
    assert("addr"@[0] != "port"@[0]);
    assert("port"@.len() != "pid"@.len());
    assert("credential"@.len() != "directory"@.len());
}

/// Decimal digits are line-safe.
proof fn lemma_decimal_safe(n: nat)
    ensures
        line_safe(crate::text::decimal(n)),
{
    crate::text::lemma_decimal(n);
    let text = crate::text::decimal(n);
    assert(text[text.len() - 1] == text.last());
}

/// What is written to a data file is what it gives back: all of its fields, and nothing more,
/// exactly if the address, the credential and the directory are line-safe.
pub proof fn law_write_then_parse(
    addr: Seq<char>,
    port: nat,
    pid: nat,
    credential: Option<Seq<char>>,
    directory: Option<Seq<char>>,
)
    ensures
        ({
            let fields = crate::mock_data::fields(addr, port, pid, credential, directory);
            crate::mock_data::parse_content(crate::mock_data::render(fields)) == fields_map(fields)
                <==> {
                &&& line_safe(addr)
                &&& credential matches Some(credential) ==> line_safe(credential)
                &&& directory matches Some(directory) ==> line_safe(directory)
            }
        }),
{
    let fields = crate::mock_data::fields(addr, port, pid, credential, directory);
    lemma_keys(addr, port, pid, credential, directory);
    law_render_then_parse(fields);
    lemma_decimal_safe(port);
    lemma_decimal_safe(pid);
    assert(fields[0].1 == addr);
    assert(fields[1].1 == crate::text::decimal(port));
    assert(fields[2].1 == crate::text::decimal(pid));
    if let Some(credential) = credential {
        assert(fields[3].1 == credential);
        if let Some(directory) = directory {
            assert(fields[4].1 == directory);
        }
    } else if let Some(directory) = directory {
        assert(fields[3].1 == directory);
    }
}

/// Each key of a data file leads to the value that was written under it, the two optional keys
/// are there exactly if they were given a value, and no other key is there. The port and the
/// process id can be told from their text.
pub proof fn law_write_then_get(
    addr: Seq<char>,
    port: nat,
    pid: nat,
    credential: Option<Seq<char>>,
    directory: Option<Seq<char>>,
    key: Seq<char>,
)
    requires
        line_safe(addr),
        credential matches Some(credential) ==> line_safe(credential),
        directory matches Some(directory) ==> line_safe(directory),
    ensures
        ({
            let data = crate::mock_data::parse_content(
                crate::mock_data::render(
                    crate::mock_data::fields(addr, port, pid, credential, directory),
                ),
            );
            let found = if data.contains_key(key) {
                Some(data[key])
            } else {
                None
            };
            found == if key == "addr"@ {
                Some(addr)
            } else if key == "port"@ {
                Some(crate::text::decimal(port))
            } else if key == "pid"@ {
                Some(crate::text::decimal(pid))
            } else if key == "credential"@ {
                credential
            } else if key == "directory"@ {
                directory
            } else {
                None
            }
        }),
        crate::text::decimal_value(crate::text::decimal(port)) == port,
        crate::text::decimal_value(crate::text::decimal(pid)) == pid,
{
    crate::text::lemma_decimal(port);
    crate::text::lemma_decimal(pid);
    let fields = crate::mock_data::fields(addr, port, pid, credential, directory);
    law_write_then_parse(addr, port, pid, credential, directory);
    lemma_keys(addr, port, pid, credential, directory);
    lemma_fields_map(fields);
    assert(fields[0] == ("addr"@, addr));
    assert(fields[1] == ("port"@, crate::text::decimal(port)));
    assert(fields[2] == ("pid"@, crate::text::decimal(pid)));
    if let Some(credential) = credential {
        assert(fields[3] == ("credential"@, credential));
        if let Some(directory) = directory {
            assert(fields[4] == ("directory"@, directory));
        }
    } else if let Some(directory) = directory {
        assert(fields[3] == ("directory"@, directory));
    }
}

/// What a line adds to a data file. After whole lines, a line of a key, `=` and a value puts the
/// value under the key, in place of what was there before, and leaves the other keys alone. The key
/// is what stands before the first `=`, and the value is all the rest, as it is. The line may end
/// with a line feed, with a carriage return and a line feed, or with the content.
pub proof fn law_parse_reads_fields(
    content: Seq<char>,
    key: Seq<char>,
    value: Seq<char>,
    ending: Seq<char>,
)
    requires
        content.len() == 0 || content.last() == '\n',
        !key.contains('='),
        !key.contains('\n'),
        !value.contains('\n'),
        ending == seq!['\n'] && (value.len() == 0 || value.last() != '\r') || ending == seq![
            '\r',
            '\n',
        ] || ending.len() == 0,
    ensures
        crate::mock_data::parse_content(content + (key + seq!['='] + value + ending))
            == crate::mock_data::parse_content(content).insert(key, value),
{
    let line = key + seq!['='] + value;
    assert forall|j: int| 0 <= j < line.len() implies line[j] != '\n' by {
        if j < key.len() {
            assert(line[j] == key[j]);
        } else if j > key.len() {
            assert(line[j] == value[j - key.len() - 1]);
        }
    }
    assert forall|j: int| 0 <= j < key.len() implies line[j] != '=' by {
        assert(line[j] == key[j]);
    }
    crate::text::lemma_first_index_unique(line, '=', key.len() as int);
    assert(line.take(key.len() as int) == key);
    assert(line.skip(key.len() as int + 1) == value);
    if value.len() > 0 {
        assert(line.last() == value.last());
    }
    lemma_parse_line(content, line, ending);
}

/// After whole lines, a line without `=` adds nothing to a data file, and an empty file holds
/// nothing.
pub proof fn law_parse_passes_over_other_lines(
    content: Seq<char>,
    line: Seq<char>,
    ending: Seq<char>,
)
    requires
        content.len() == 0 || content.last() == '\n',
        !line.contains('='),
        !line.contains('\n'),
        ending == seq!['\n'] || ending.len() == 0,
    ensures
        crate::mock_data::parse_content(content + (line + ending))
            == crate::mock_data::parse_content(content),
        crate::mock_data::parse_content(Seq::empty()) == Map::<Seq<char>, Seq<char>>::empty(),
{
    if line.len() > 0 && line.last() == '\r' && ending.len() > 0 {
        let front = line.drop_last();
        assert(line + ending == front + seq!['\r', '\n']);
        assert forall|j: int| 0 <= j < front.len() implies front[j] != '=' && front[j] != '\n' by {
            assert(front[j] == line[j]);
        }
        lemma_parse_line(content, front, seq!['\r', '\n']);
    } else if line.len() + ending.len() > 0 {
        lemma_parse_line(content, line, ending);
    } else {
        assert(content + (line + ending) == content);
    }
}

/// What is read of a line at the end.
proof fn lemma_parse_line(content: Seq<char>, line: Seq<char>, ending: Seq<char>)
    requires
        content.len() == 0 || content.last() == '\n',
        !line.contains('\n'),
        ending == seq!['\n'] && (line.len() == 0 || line.last() != '\r') || ending == seq![
            '\r',
            '\n',
        ] || ending.len() == 0 && line.len() > 0,
    ensures
        crate::mock_data::parse_content(content + (line + ending)) == match crate::text::split_once(
            line,
            '=',
        ) {
            Some((key, value)) => crate::mock_data::parse_content(content).insert(key, value),
            None => crate::mock_data::parse_content(content),
        },
{
    let last = line + ending;
    lemma_lines_concat(content, last);
    crate::text::law_lines(line, Seq::empty());
    assert(last + Seq::<char>::empty() == last);
    if ending.len() == 0 {
        assert(last == line);
    }
    assert(crate::text::lines(last) == seq![line]);
    let all = crate::text::lines(content + last);
    assert(all == crate::text::lines(content).push(line));
    assert(all.drop_last() == crate::text::lines(content));
}

/// One line more is appended with one field more.
proof fn lemma_render_next(fields: Seq<(Seq<char>, Seq<char>)>, n: int)
    requires
        0 <= n < fields.len(),
    ensures
        crate::mock_data::render(fields.take(n + 1)) == crate::mock_data::render(fields.take(n))
            + crate::mock_data::field_line(fields[n]),
        crate::mock_data::render(fields.take(0)) == Seq::<char>::empty(),
{
    assert(fields.take(n + 1).drop_last() == fields.take(n));
}

/// The line of a field, where `start` is the key and `=`.
proof fn lemma_line_text(key: Seq<char>, start: Seq<char>, value: Seq<char>)
    requires
        start == key.push('='),
    ensures
        crate::mock_data::field_line((key, value)) == start + value + seq!['\n'],
{
    assert(crate::mock_data::field_line((key, value)) == start + value + seq!['\n']);
}

/// The keys with `=` behind them.
proof fn lemma_line_starts()
    ensures
        "addr="@ == "addr"@.push('='),
        "port="@ == "port"@.push('='),
        "pid="@ == "pid"@.push('='),
        "credential="@ == "credential"@.push('='),
        "directory="@ == "directory"@.push('='),
{
    reveal_strlit("addr");
    reveal_strlit("addr=");
    reveal_strlit("port");
    reveal_strlit("port=");
    reveal_strlit("pid");
    reveal_strlit("pid=");
    reveal_strlit("credential");
    reveal_strlit("credential=");
    reveal_strlit("directory");
    reveal_strlit("directory=");
    assert("addr="@ =~= "addr"@.push('='));
    assert("port="@ =~= "port"@.push('='));
    assert("pid="@ =~= "pid"@.push('='));
    assert("credential="@ =~= "credential"@.push('='));
    assert("directory="@ =~= "directory"@.push('='));
}

/// The content of a data file, character by character: one line each for the address, the port and
/// the process id, and then one for the credential and one for the directory, if they are given.
pub proof fn law_content(
    addr: Seq<char>,
    port: nat,
    pid: nat,
    credential: Option<Seq<char>>,
    directory: Option<Seq<char>>,
)
    ensures
        crate::mock_data::render(
            crate::mock_data::fields(addr, port, pid, credential, directory),
        ) == ("addr="@ + addr + seq!['\n']) + ("port="@ + crate::text::decimal(port) + seq!['\n'])
            + ("pid="@ + crate::text::decimal(pid) + seq!['\n']) + (match credential {
            Some(credential) => "credential="@ + credential + seq!['\n'],
            None => seq![],
        }) + (match directory {
            Some(directory) => "directory="@ + directory + seq!['\n'],
            None => seq![],
        }),
{
    let all = crate::mock_data::fields(addr, port, pid, credential, directory);
    lemma_line_starts();
    assert(all[0] == ("addr"@, addr));
    assert(all[1] == ("port"@, crate::text::decimal(port)));
    assert(all[2] == ("pid"@, crate::text::decimal(pid)));
    lemma_render_next(all, 0);
    lemma_render_next(all, 1);
    lemma_render_next(all, 2);
    lemma_line_text("addr"@, "addr="@, addr);
    lemma_line_text("port"@, "port="@, crate::text::decimal(port));
    lemma_line_text("pid"@, "pid="@, crate::text::decimal(pid));
    let first = "addr="@ + addr + seq!['\n'];
    assert(Seq::<char>::empty() + first == first);
    let head = crate::mock_data::render(all.take(3));
    assert(head + Seq::<char>::empty() == head);
    if let Some(c) = credential {
        assert(all[3] == ("credential"@, c));
        lemma_render_next(all, 3);
        lemma_line_text("credential"@, "credential="@, c);
        if let Some(d) = directory {
            assert(all[4] == ("directory"@, d));
            lemma_render_next(all, 4);
            lemma_line_text("directory"@, "directory="@, d);
            assert(all.take(5) == all);
        } else {
            let both = crate::mock_data::render(all.take(4));
            assert(both + Seq::<char>::empty() == both);
            assert(all.take(4) == all);
        }
    } else if let Some(d) = directory {
        assert(all[3] == ("directory"@, d));
        lemma_render_next(all, 3);
        lemma_line_text("directory"@, "directory="@, d);
        assert(all.take(4) == all);
    } else {
        assert(all.take(3) == all);
    }
}

} // verus!
