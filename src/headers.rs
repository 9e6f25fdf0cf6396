use vstd::prelude::*;
use reqwest::header::HeaderMap;
use crate::text::{find_char, first_index};

verus! {

#[verifier::external_type_specification]
#[verifier::external_body]
#[verifier::reject_recursive_types(T)]
pub struct ExHeaderMap<T>(reqwest::header::HeaderMap<T>);

#[verifier::external_type_specification]
#[verifier::external_body]
pub struct ExHeaderValue(reqwest::header::HeaderValue);

/// What a header map holds: for each header name, in lower case, the text of
/// its value.
pub uninterp spec fn header_entries(m: HeaderMap) -> Map<Seq<char>, Seq<char>>;

/// A header map with fewer entries than this always takes one more without
/// panicking. `HeaderMap::insert` panics when its table would have to grow
/// past 32768 slots, and how soon it grows depends on hash collisions. Below
/// this many entries no growth, colliding or not, reaches that size.
pub const HEADER_ROOM: usize = 6554;

/// The most lines of a header file whose header is taken: one slot of
/// `HEADER_ROOM` stays free for the content type.
pub const MAX_FILE_HEADERS: usize = HEADER_ROOM - 1;

/// A character of the Unicode `White_Space` property.
pub open spec fn is_space(c: char) -> bool {
    ||| ('\t' <= c && c <= '\r')
    ||| c == ' '
    ||| c == '\u{85}'
    ||| c == '\u{a0}'
    ||| c == '\u{1680}'
    ||| ('\u{2000}' <= c && c <= '\u{200a}')
    ||| c == '\u{2028}'
    ||| c == '\u{2029}'
    ||| c == '\u{202f}'
    ||| c == '\u{205f}'
    ||| c == '\u{3000}'
}

/// `s` without its leading white space.
pub open spec fn trim_start(s: Seq<char>) -> Seq<char>
    decreases s.len(),
{
    if s.len() > 0 && is_space(s[0]) {
        trim_start(s.drop_first())
    } else {
        s
    }
}

/// `s` without its trailing white space.
pub open spec fn trim_end(s: Seq<char>) -> Seq<char>
    decreases s.len(),
{
    if s.len() > 0 && is_space(s.last()) {
        trim_end(s.drop_last())
    } else {
        s
    }
}

/// `s` without the white space at its two ends.
pub open spec fn trimmed(s: Seq<char>) -> Seq<char> {
    trim_end(trim_start(s))
}

/// Relies on str::trim: it removes the leading and trailing characters of
/// the Unicode `White_Space` property.
#[verifier::external_body]
fn trim_text(s: &str) -> (r: &str)
    ensures
        r@ == trimmed(s@),
{
    s.trim()
}

/// A character that may stand in a header name (an HTTP token character).
pub open spec fn is_token_char(c: char) -> bool {
    ||| ('a' <= c && c <= 'z')
    ||| ('A' <= c && c <= 'Z')
    ||| ('0' <= c && c <= '9')
    ||| c == '!' || c == '#' || c == '$' || c == '%' || c == '&' || c == '\''
    ||| c == '*' || c == '+' || c == '-' || c == '.' || c == '^' || c == '_'
    ||| c == '`' || c == '|' || c == '~'
}

/// Text that `HeaderName` accepts as a name.
pub open spec fn valid_header_name(s: Seq<char>) -> bool {
    &&& 0 < s.len() < 65536
    &&& forall|i: int| 0 <= i < s.len() ==> is_token_char(#[trigger] s[i])
}

/// Text that `HeaderValue` accepts as a value: no control character but tab.
pub open spec fn valid_header_value(s: Seq<char>) -> bool {
    forall|i: int|
        0 <= i < s.len() ==> (#[trigger] s[i] == '\t' || (s[i] as u32 >= 32 && s[i] as u32 != 127))
}

/// An ASCII capital letter in lower case; any other character as it is.
pub open spec fn lower_char(c: char) -> char {
    if 'A' <= c && c <= 'Z' {
        ((c as u32) + 32) as char
    } else {
        c
    }
}

/// A header name as `HeaderName` keeps it: ASCII letters in lower case.
pub open spec fn lowercase_name(s: Seq<char>) -> Seq<char> {
    s.map_values(|c: char| lower_char(c))
}

/// Relies on HeaderMap::new: a map with no entry.
#[verifier::external_body]
fn new_header_map() -> (r: HeaderMap)
    ensures
        header_entries(r) =~= Map::empty(),
{
    HeaderMap::new()
}

/// Relies on HeaderName::from_str and HeaderValue::from_str, which accept
/// exactly the names and values above (the name kept in lower case), and on
/// HeaderMap::insert, which replaces what the map held under that name and
/// does not panic while the map has fewer than `HEADER_ROOM` entries.
/// Returns whether both were accepted; the map is unchanged otherwise.
#[verifier::external_body]
fn insert_header(m: &mut HeaderMap, name: &str, value: &str) -> (accepted: bool)
    requires
        header_entries(*old(m)).dom().len() < HEADER_ROOM,
    ensures
        accepted == (valid_header_name(name@) && valid_header_value(value@)),
        accepted ==> header_entries(*final(m)) == header_entries(*old(m)).insert(
            lowercase_name(name@),
            value@,
        ),
        !accepted ==> header_entries(*final(m)) == header_entries(*old(m)),
{
    match (name.parse::<reqwest::header::HeaderName>(), value.parse::<reqwest::header::HeaderValue>()) {
        (Ok(n), Ok(v)) => {
            m.insert(n, v);
            true
        },
        _ => false,
    }
}

/// The pieces of `s` between line feeds; the last one is the text after the
/// last line feed, possibly empty.
pub open spec fn segments(s: Seq<char>) -> Seq<Seq<char>>
    decreases s.len(),
{
    if s.len() == 0 {
        seq![Seq::empty()]
    } else {
        let p = segments(s.drop_last());
        if s.last() == '\n' {
            p.push(Seq::empty())
        } else {
            p.update(p.len() - 1, p.last().push(s.last()))
        }
    }
}

/// A line without the carriage return that ended it.
pub open spec fn strip_cr(l: Seq<char>) -> Seq<char> {
    if l.len() > 0 && l.last() == '\r' {
        l.drop_last()
    } else {
        l
    }
}

/// The lines of `s`, as `str::lines` gives them: ended by `\n` or `\r\n`,
/// the last one possibly unended, and no empty line after a final `\n`.
pub open spec fn lines_of(s: Seq<char>) -> Seq<Seq<char>> {
    let seg = segments(s);
    let done = seg.drop_last().map_values(|l: Seq<char>| strip_cr(l));
    if seg.last().len() == 0 {
        done
    } else {
        done.push(seg.last())
    }
}

proof fn lemma_segments_nonempty(s: Seq<char>)
    ensures
        segments(s).len() >= 1,
    decreases s.len(),
{
    if s.len() > 0 {
        lemma_segments_nonempty(s.drop_last());
    }
}

/// The lines of `text`, each without its line ending.
pub fn split_lines(text: &str) -> (r: Vec<String>)
    ensures
        r@.map_values(|l: String| l@) == lines_of(text@),
{
    let n = text.unicode_len();
    let mut out: Vec<String> = Vec::new();
    let mut start: usize = 0;
    let mut i: usize = 0;
    while i < n
        invariant
            n == text@.len(),
            start <= i <= n,
            segments(text@.take(i as int)).len() >= 1,
            text@.subrange(start as int, i as int) == segments(text@.take(i as int)).last(),
            out@.map_values(|l: String| l@) == segments(text@.take(i as int)).drop_last().map_values(
                |l: Seq<char>| strip_cr(l),
            ),
        decreases n - i,
    {
        let ghost pre = text@.take(i as int);
        let ghost next = text@.take(i + 1);
        proof {
            assert(next.drop_last() =~= pre);
            lemma_segments_nonempty(pre);
        }
        let c = text.get_char(i);
        if c == '\n' {
            let line = if i > start && text.get_char(i - 1) == '\r' {
                text.substring_char(start, i - 1)
            } else {
                text.substring_char(start, i)
            };
            proof {
                let l = text@.subrange(start as int, i as int);
                assert(line@ =~= strip_cr(l));
            }
            let ghost old_out = out@;
            let owned = String::from_str(line);
            out.push(owned);
            proof {
                let f = |l: String| l@;
                let g = |l: Seq<char>| strip_cr(l);
                assert(out@.map_values(f) =~= old_out.map_values(f).push(owned@));
                assert(segments(pre).map_values(g) =~= segments(pre).drop_last().map_values(g).push(
                    g(segments(pre).last()),
                ));
                assert(segments(next).drop_last() =~= segments(pre));
                assert(segments(pre) =~= segments(pre).drop_last().push(segments(pre).last()));
                assert(out@.map_values(|l: String| l@) =~= segments(next).drop_last().map_values(
                    |l: Seq<char>| strip_cr(l),
                ));
            }
            start = i + 1;
        } else {
            proof {
                assert(segments(next).drop_last() =~= segments(pre).drop_last());
                assert(text@.subrange(start as int, i + 1) =~= segments(next).last());
            }
        }
        i = i + 1;
    }
    proof {
        assert(text@.take(n as int) =~= text@);
    }
    if start < n {
        let last = text.substring_char(start, n);
        out.push(String::from_str(last));
        assert(out@.map_values(|l: String| l@) =~= lines_of(text@));
    } else {
        assert(out@.map_values(|l: String| l@) =~= lines_of(text@));
    }
    out
}

/// A line cut at its first colon into name and value, untrimmed; `None` for
/// a line without a colon.
pub open spec fn header_split(line: Seq<char>) -> Option<(Seq<char>, Seq<char>)> {
    match first_index(line, ':') {
        Some(i) => Some((line.take(i), line.skip(i + 1))),
        None => None,
    }
}

/// The header that a line contributes: its trimmed name, in lower case, and
/// its trimmed value, when both are accepted.
pub open spec fn line_entry(line: Seq<char>) -> Option<(Seq<char>, Seq<char>)> {
    match header_split(line) {
        Some((name, value)) => {
            if valid_header_name(trimmed(name)) && valid_header_value(trimmed(value)) {
                Some((lowercase_name(trimmed(name)), trimmed(value)))
            } else {
                None
            }
        },
        None => None,
    }
}

/// A line with a colon whose name or value is refused.
pub open spec fn is_rejected_line(line: Seq<char>) -> bool {
    header_split(line) is Some && line_entry(line) is None
}

/// The headers of a list of lines, a later line replacing an earlier one of
/// the same name, as far as the lines go.
pub open spec fn headers_from_lines(lines: Seq<Seq<char>>) -> Map<Seq<char>, Seq<char>>
    decreases lines.len(),
{
    if lines.len() == 0 {
        Map::empty()
    } else {
        let m = headers_from_lines(lines.drop_last());
        match line_entry(lines.last()) {
            Some((name, value)) => m.insert(name, value),
            None => m,
        }
    }
}

/// The number of lines that contribute a header.
pub open spec fn accepted_count(lines: Seq<Seq<char>>) -> nat
    decreases lines.len(),
{
    if lines.len() == 0 {
        0
    } else {
        accepted_count(lines.drop_last()) + if line_entry(lines.last()) is Some {
            1nat
        } else {
            0nat
        }
    }
}

/// The headers taken from a list of lines, and how many lines gave one:
/// lines are read in order until `MAX_FILE_HEADERS` of them have given a
/// header, and the rest are left unread.
pub open spec fn capped_fold(lines: Seq<Seq<char>>) -> (Map<Seq<char>, Seq<char>>, nat)
    decreases lines.len(),
{
    if lines.len() == 0 {
        (Map::empty(), 0)
    } else {
        let (m, c) = capped_fold(lines.drop_last());
        if c >= MAX_FILE_HEADERS {
            (m, c)
        } else {
            match line_entry(lines.last()) {
                Some((name, value)) => (m.insert(name, value), c + 1),
                None => (m, c),
            }
        }
    }
}

/// The last line is read: fewer than `MAX_FILE_HEADERS` earlier lines gave
/// a header.
pub open spec fn last_is_read(lines: Seq<Seq<char>>) -> bool {
    capped_fold(lines.drop_last()).1 < MAX_FILE_HEADERS
}

/// The lines that were read and refused, in order.
pub open spec fn rejected_lines(lines: Seq<Seq<char>>) -> Seq<Seq<char>>
    decreases lines.len(),
{
    if lines.len() == 0 {
        Seq::empty()
    } else {
        let p = rejected_lines(lines.drop_last());
        if last_is_read(lines) && is_rejected_line(lines.last()) {
            p.push(lines.last())
        } else {
            p
        }
    }
}

/// The lines left unread because the header set was full, in order.
pub open spec fn unread_lines(lines: Seq<Seq<char>>) -> Seq<Seq<char>>
    decreases lines.len(),
{
    if lines.len() == 0 {
        Seq::empty()
    } else {
        let p = unread_lines(lines.drop_last());
        if last_is_read(lines) {
            p
        } else {
            p.push(lines.last())
        }
    }
}

/// The header set of a list of header lines: the headers taken from them,
/// then `content-type: application/json`, which overrides any value of the
/// lines.
pub open spec fn headers_of_lines(lines: Seq<Seq<char>>) -> Map<Seq<char>, Seq<char>> {
    capped_fold(lines).0.insert("content-type"@, "application/json"@)
}

/// The header set of a header file.
pub open spec fn loaded_headers(text: Seq<char>) -> Map<Seq<char>, Seq<char>> {
    headers_of_lines(lines_of(text))
}

/// The header set built from a header file, the lines that had a colon but
/// whose name or value was refused, and the lines left unread because
/// `MAX_FILE_HEADERS` lines had already given a header.
pub struct LoadedHeaders {
    pub headers: HeaderMap,
    pub rejected: Vec<String>,
    pub unread: Vec<String>,
}

/// Builds the header set of a header file of `name: value` lines. A line
/// without a colon is skipped; one whose name or value is refused is skipped
/// and reported; neither ends the load. Any file loads.
pub fn load_headers(text: &str) -> (r: LoadedHeaders)
    ensures
        header_entries(r.headers) == loaded_headers(text@),
        r.rejected@.map_values(|l: String| l@) == rejected_lines(lines_of(text@)),
        r.unread@.map_values(|l: String| l@) == unread_lines(lines_of(text@)),
{
    let lines = split_lines(text);
    let ghost all = lines_of(text@);
    let mut m = new_header_map();
    let mut rejected: Vec<String> = Vec::new();
    let mut unread: Vec<String> = Vec::new();
    let mut taken: usize = 0;
    let mut j: usize = 0;
    while j < lines.len()
        invariant
            lines@.map_values(|l: String| l@) == all,
            j <= lines@.len(),
            taken <= MAX_FILE_HEADERS,
            (header_entries(m), taken as nat) == capped_fold(all.take(j as int)),
            header_entries(m).dom().finite(),
            header_entries(m).dom().len() <= taken,
            rejected@.map_values(|l: String| l@) == rejected_lines(all.take(j as int)),
            unread@.map_values(|l: String| l@) == unread_lines(all.take(j as int)),
        decreases lines@.len() - j,
    {
        let ghost pre = all.take(j as int);
        let ghost next = all.take(j + 1);
        let ghost line_view = all[j as int];
        proof {
            assert(next.drop_last() =~= pre);
        }
        if taken >= MAX_FILE_HEADERS {
            let ghost old_unread = unread@;
            let copy = lines[j].clone();
            unread.push(copy);
            assert(unread@.map_values(|l: String| l@) =~= old_unread.map_values(
                |l: String| l@,
            ).push(line_view));
        } else {
            let line = lines[j].as_str();
            match find_char(line, ':') {
                Some(i) => {
                    let len = line.unicode_len();
                    let name = trim_text(line.substring_char(0, i));
                    let value = trim_text(line.substring_char(i + 1, len));
                    proof {
                        assert(line@.subrange(0, i as int) =~= line@.take(i as int));
                        assert(line@.subrange(i + 1, len as int) =~= line@.skip(i + 1));
                    }
                    let accepted = insert_header(&mut m, name, value);
                    if accepted {
                        taken = taken + 1;
                    } else {
                        let ghost old_rejected = rejected@;
                        let copy = lines[j].clone();
                        rejected.push(copy);
                        assert(rejected@.map_values(|l: String| l@) =~= old_rejected.map_values(
                            |l: String| l@,
                        ).push(line_view));
                    }
                },
                None => {},
            }
        }
        j = j + 1;
    }
    proof {
        assert(all.take(lines@.len() as int) =~= all);
        reveal_strlit("content-type");
        reveal_strlit("application/json");
        assert(lowercase_name("content-type"@) =~= "content-type"@);
    }
    insert_header(&mut m, "content-type", "application/json");
    LoadedHeaders { headers: m, rejected, unread }
}

/// After loading, the header set always holds `content-type:
/// application/json`, whatever the file said of that name.
pub proof fn lemma_content_type_always_set(text: Seq<char>)
    ensures
        loaded_headers(text).contains_key("content-type"@),
        loaded_headers(text)["content-type"@] == "application/json"@,
{
}

/// While at most `MAX_FILE_HEADERS` lines give a header, the header set is
/// that of all the lines; while fewer do, no line is left unread.
pub proof fn lemma_every_line_read(lines: Seq<Seq<char>>)
    requires
        accepted_count(lines) <= MAX_FILE_HEADERS,
    ensures
        capped_fold(lines) == (headers_from_lines(lines), accepted_count(lines)),
        accepted_count(lines) < MAX_FILE_HEADERS ==> unread_lines(lines) == Seq::<
            Seq<char>,
        >::empty(),
    decreases lines.len(),
{
    if lines.len() > 0 {
        lemma_every_line_read(lines.drop_last());
    }
}

/// A line without a colon, or whose name or value is refused, adds nothing
/// to the header set and takes nothing from it, wherever it stands among
/// the lines.
pub proof fn lemma_malformed_line_skipped(
    before: Seq<Seq<char>>,
    line: Seq<char>,
    after: Seq<Seq<char>>,
)
    requires
        header_split(line) is None || is_rejected_line(line),
    ensures
        capped_fold(before.push(line) + after) == capped_fold(before + after),
        headers_of_lines(before.push(line) + after) == headers_of_lines(before + after),
    decreases after.len(),
{
    if after.len() == 0 {
        assert(before.push(line) + after =~= before.push(line));
        assert(before + after =~= before);
        assert(before.push(line).drop_last() =~= before);
    } else {
        lemma_malformed_line_skipped(before, line, after.drop_last());
        assert((before.push(line) + after).drop_last() =~= before.push(line) + after.drop_last());
        assert((before + after).drop_last() =~= before + after.drop_last());
    }
}

} // verus!
