//! Reading what HidHideCLI prints.
//!
//! - `--cloak-state` prints one line, `--cloak-on` or `--cloak-off`;
//! - `--app-list` prints lines `--app-reg "<path>"`;
//! - `--dev-list` prints lines `--dev-hide "<path>"`;
//! - `--dev-gaming` prints JSON whose `deviceInstancePath` values escape each
//!   backslash as `\\`.
//!
//! Paths are compared case-insensitively: the parsed sets hold lowercased paths.

use vstd::prelude::*;
use crate::text::{
    char_vec_views, chars_of, contains_chars, contains_seq, copy_range, find_char, find_char_from,
    join_strings, join_with, lemma_find_char_bounds, lemma_find_char_is, lines, occurs_at, lowercase, split_lines, starts_with, str_views,
    is_white_space, string_of, strip_cr, string_views, to_lowercase, trim, trim_chars, trim_end, trim_start,
};

verus! {

/// Where the HidHide installer puts HidHideCLI.exe.
pub const DEFAULT_CLI_PATH: &'static str = "C:\\Program Files\\Nefarius Software Solutions\\HidHide\\x64\\HidHideCLI.exe";

/// Substrings (lowercase) that pick out the gamepad collection (Col01) of the
/// OBOX controller in a `deviceInstancePath`: the vendor id 0x0A5C in both its
/// Bluetooth (`VID&00020a5c`) and plain (`VID&0A5C`) spellings, the product id,
/// and the collection. Hiding Col01 hides the whole controller.
pub const OBOX_PATTERNS: [&'static str; 3] = ["0a5c", "pid&4502", "col01"];

/// The value in double quotes that follows `prefix` on `line`, both the line
/// and the text after the prefix taken trimmed; `None` when the trimmed line
/// does not start with `prefix` or the rest is not one quoted string.
pub open spec fn quoted_value(line: Seq<char>, prefix: Seq<char>) -> Option<Seq<char>> {
    let l = trim(line);
    if prefix.is_prefix_of(l) {
        let rest = trim(l.skip(prefix.len() as int));
        if rest.len() >= 2 && rest[0] == '"' && rest.last() == '"' {
            Some(rest.subrange(1, rest.len() - 1))
        } else {
            None
        }
    } else {
        None
    }
}

/// The lowercased quoted value of `line`, if it has one.
pub open spec fn lowered_quoted_value(line: Seq<char>, prefix: Seq<char>) -> Option<Seq<char>> {
    match quoted_value(line, prefix) {
        Some(v) => Some(lowercase(v)),
        None => None,
    }
}

/// The lowercased quoted values of `lines`, in line order, repeats included.
pub open spec fn quoted_values(lines: Seq<Seq<char>>, prefix: Seq<char>) -> Seq<Seq<char>> {
    lines.filter_map(|l: Seq<char>| lowered_quoted_value(l, prefix))
}

/// The set, without repeats and in order of first appearance, of the
/// lowercased quoted values of `lines`.
pub open spec fn quoted_value_set(lines: Seq<Seq<char>>, prefix: Seq<char>) -> Seq<Seq<char>> {
    quoted_values(lines, prefix).remove_duplicates(seq![])
}

/// The quoted value that follows `prefix` on `line` (see `quoted_value`).
pub fn quoted_value_chars(line: &[char], prefix: &[char]) -> (r: Option<Vec<char>>)
    ensures
        match r {
            Some(v) => quoted_value(line@, prefix@) == Some(v@),
            None => quoted_value(line@, prefix@) is None,
        },
{
    let l = trim_chars(line);
    if !starts_with(&l, prefix) {
        return None;
    }
    let after = copy_range(&l, prefix.len(), l.len());
    assert(after@ =~= l@.skip(prefix@.len() as int));
    let rest = trim_chars(&after);
    let n = rest.len();
    if n >= 2 && rest[0] == '"' && rest[n - 1] == '"' {
        let v = copy_range(&rest, 1, n - 1);
        Some(v)
    } else {
        None
    }
}

/// Whether `v` already holds a string equal to `s`.
pub fn contains_string(v: &Vec<String>, s: &String) -> (r: bool)
    ensures
        r == string_views(v@).contains(s@),
{
    let mut i: usize = 0;
    while i < v.len()
        invariant
            i <= v@.len(),
            forall|k: int| 0 <= k < i ==> v@[k]@ != s@,
        decreases v.len() - i,
    {
        if v[i] == *s {
            assert(string_views(v@)[i as int] == s@);
            return true;
        }
        i = i + 1;
    }
    proof {
        if string_views(v@).contains(s@) {
            let k = choose|k: int| 0 <= k < string_views(v@).len() && string_views(v@)[k] == s@;
            assert(v@[k]@ == s@);
        }
    }
    false
}

/// Adds `s` to the set `set` unless it is already there.
pub fn insert_unique(set: &mut Vec<String>, s: String)
    ensures
        string_views(old(set)@).contains(s@) ==> string_views(final(set)@) == string_views(
            old(set)@,
        ),
        !string_views(old(set)@).contains(s@) ==> string_views(final(set)@) == string_views(
            old(set)@,
        ).push(s@),
{
    if !contains_string(set, &s) {
        let ghost prev = set@;
        set.push(s);
        assert(string_views(set@) =~= string_views(prev).push(set@.last()@));
    }
}

/// Collects the lowercased quoted values of `lines` into a set.
fn collect_quoted(lines: &Vec<Vec<char>>, prefix: &[char]) -> (r: Vec<String>)
    ensures
        string_views(r@) == quoted_value_set(char_vec_views(lines@), prefix@),
{
    let ghost all = char_vec_views(lines@);
    let mut set: Vec<String> = Vec::new();
    let mut i: usize = 0;
    assert(quoted_values(all.take(0), prefix@) =~= Seq::<Seq<char>>::empty());
    assert(string_views(set@) =~= Seq::<Seq<char>>::empty().remove_duplicates(seq![]));
    while i < lines.len()
        invariant
            i <= lines@.len(),
            all == char_vec_views(lines@),
            string_views(set@) == quoted_values(all.take(i as int), prefix@).remove_duplicates(
                seq![],
            ),
        decreases lines.len() - i,
    {
        let ghost before = quoted_values(all.take(i as int), prefix@);
        assert(all.take(i + 1).drop_last() =~= all.take(i as int));
        assert(all.take(i + 1).last() == lines@[i as int]@);
        match quoted_value_chars(&lines[i], prefix) {
            Some(v) => {
                let vs = string_of(&v);
                let low = to_lowercase(vs.as_str());
                proof {
                    assert(quoted_values(all.take(i + 1), prefix@) == before + seq![low@]);
                    before.lemma_remove_duplicates_append(low@, seq![]);
                    before.lemma_remove_duplicates_properties(seq![]);
                    assert(before + seq![] =~= before);
                }
                insert_unique(&mut set, low);
            },
            None => {
                assert(quoted_values(all.take(i + 1), prefix@) == before);
            },
        }
        i = i + 1;
    }
    assert(all.take(lines@.len() as int) =~= all);
    set
}

/// Whether some line of `lines` carries the lowercased quoted value `v`.
pub open spec fn some_line_gives(lines: Seq<Seq<char>>, prefix: Seq<char>, v: Seq<char>) -> bool {
    exists|k: int| 0 <= k < lines.len() && lowered_quoted_value(#[trigger] lines[k], prefix) == Some(v)
}

/// The quoted-value set holds exactly the values that some line carries.
pub proof fn lemma_quoted_value_set_members(lines: Seq<Seq<char>>, prefix: Seq<char>, v: Seq<char>)
    ensures
        quoted_value_set(lines, prefix).contains(v) <==> some_line_gives(lines, prefix, v),
    decreases lines.len(),
{
    let q = quoted_values(lines, prefix);
    q.lemma_remove_duplicates_properties(seq![]);
    assert(q + seq![] =~= q);
    lemma_quoted_values_members(lines, prefix, v);
}

proof fn lemma_quoted_values_members(lines: Seq<Seq<char>>, prefix: Seq<char>, v: Seq<char>)
    ensures
        quoted_values(lines, prefix).contains(v) <==> some_line_gives(lines, prefix, v),
    decreases lines.len(),
{
    if lines.len() > 0 {
        let rest = lines.drop_last();
        lemma_quoted_values_members(rest, prefix, v);
        let qr = quoted_values(rest, prefix);
        let q = quoted_values(lines, prefix);
        let last = lines.last();
        match lowered_quoted_value(last, prefix) {
            Some(x) => {
                assert(q == qr + seq![x]);
                if q.contains(v) {
                    let i = choose|i: int| 0 <= i < q.len() && q[i] == v;
                    if i < qr.len() {
                        assert(qr[i] == v);
                    } else {
                        assert(lowered_quoted_value(lines[lines.len() - 1], prefix) == Some(v));
                    }
                }
                if some_line_gives(lines, prefix, v) {
                    let k = choose|k: int| 0 <= k < lines.len() && lowered_quoted_value(#[trigger] lines[k], prefix) == Some(v);
                    if k < rest.len() {
                        assert(rest[k] == lines[k]);
                        let i = choose|i: int| 0 <= i < qr.len() && qr[i] == v;
                        assert(q[i] == v);
                    } else {
                        assert(q[qr.len() as int] == v);
                    }
                }
                if some_line_gives(rest, prefix, v) {
                    let k = choose|k: int| 0 <= k < rest.len() && lowered_quoted_value(#[trigger] rest[k], prefix) == Some(v);
                    assert(lines[k] == rest[k]);
                }
            },
            None => {
                assert(q == qr);
                if some_line_gives(lines, prefix, v) {
                    let k = choose|k: int| 0 <= k < lines.len() && lowered_quoted_value(#[trigger] lines[k], prefix) == Some(v);
                    assert(k < rest.len());
                    assert(rest[k] == lines[k]);
                }
                if some_line_gives(rest, prefix, v) {
                    let k = choose|k: int| 0 <= k < rest.len() && lowered_quoted_value(#[trigger] rest[k], prefix) == Some(v);
                    assert(lines[k] == rest[k]);
                }
            },
        }
    }
}

/// Law: the parsed set depends only on which lines occur, not on their order
/// or repetition, and lines that carry no value (such as other commands) do
/// not matter: two line lists with the same value-carrying lines give the
/// same set.
pub proof fn lemma_quoted_value_set_ignores_order_and_repeats(
    lines1: Seq<Seq<char>>,
    lines2: Seq<Seq<char>>,
    prefix: Seq<char>,
)
    requires
        forall|k: int|
            0 <= k < lines2.len() ==> lines1.contains(#[trigger] lines2[k]) || lowered_quoted_value(
                lines2[k],
                prefix,
            ) is None,
        forall|k: int|
            0 <= k < lines1.len() ==> lines2.contains(#[trigger] lines1[k]) || lowered_quoted_value(
                lines1[k],
                prefix,
            ) is None,
    ensures
        forall|v: Seq<char>|
            quoted_value_set(lines1, prefix).contains(v) <==> #[trigger] quoted_value_set(
                lines2,
                prefix,
            ).contains(v),
{
    assert forall|v: Seq<char>|
        quoted_value_set(lines1, prefix).contains(v) <==> #[trigger] quoted_value_set(
            lines2,
            prefix,
        ).contains(v) by {
        lemma_quoted_value_set_members(lines1, prefix, v);
        lemma_quoted_value_set_members(lines2, prefix, v);
        if some_line_gives(lines1, prefix, v) {
            let k = choose|k: int| 0 <= k < lines1.len() && lowered_quoted_value(#[trigger] lines1[k], prefix) == Some(v);
            assert(lines2.contains(lines1[k]));
            let j = choose|j: int| 0 <= j < lines2.len() && lines2[j] == lines1[k];
            assert(lowered_quoted_value(lines2[j], prefix) == Some(v));
        }
        if some_line_gives(lines2, prefix, v) {
            let k = choose|k: int| 0 <= k < lines2.len() && lowered_quoted_value(#[trigger] lines2[k], prefix) == Some(v);
            assert(lines1.contains(lines2[k]));
            let j = choose|j: int| 0 <= j < lines1.len() && lines1[j] == lines2[k];
            assert(lowered_quoted_value(lines1[j], prefix) == Some(v));
        }
    }
}

/// Extracts, lowercased and without repeats, the quoted values of the lines
/// that start with `prefix` (each line and the text after the prefix trimmed).
pub fn parse_quoted_values(lines: &[&str], prefix: &str) -> (r: Vec<String>)
    ensures
        string_views(r@) == quoted_value_set(str_views(lines@), prefix@),
{
    let mut converted: Vec<Vec<char>> = Vec::new();
    let mut i: usize = 0;
    while i < lines.len()
        invariant
            i <= lines@.len(),
            converted@.len() == i,
            forall|k: int| 0 <= k < i ==> (#[trigger] converted@[k])@ == lines@[k]@,
        decreases lines.len() - i,
    {
        let c = chars_of(lines[i]);
        converted.push(c);
        i = i + 1;
    }
    assert(char_vec_views(converted@) =~= str_views(lines@));
    let p = chars_of(prefix);
    collect_quoted(&converted, &p)
}

/// The lowercased paths that an `--app-list` output registers.
pub fn parse_app_list(text: &str) -> (r: Vec<String>)
    ensures
        string_views(r@) == quoted_value_set(lines(text@), "--app-reg"@),
{
    let t = chars_of(text);
    let ls = split_lines(&t);
    let p = chars_of("--app-reg");
    collect_quoted(&ls, &p)
}

/// The lowercased device instance paths that a `--dev-list` output hides.
pub fn parse_dev_list(text: &str) -> (r: Vec<String>)
    ensures
        string_views(r@) == quoted_value_set(lines(text@), "--dev-hide"@),
{
    let t = chars_of(text);
    let ls = split_lines(&t);
    let p = chars_of("--dev-hide");
    collect_quoted(&ls, &p)
}


/// The JSON key whose string values name device instances.
pub open spec fn instance_key() -> Seq<char> {
    "\"deviceInstancePath\""@
}

/// JSON unescaping of backslashes: each `\\` (left to right, without overlap)
/// becomes one `\`, as `str::replace("\\\\", "\\")` does.
pub open spec fn unescape_backslashes(s: Seq<char>) -> Seq<char>
    decreases s.len(),
{
    if s.len() == 0 {
        seq![]
    } else if s.len() >= 2 && s[0] == '\\' && s[1] == '\\' {
        seq!['\\'] + unescape_backslashes(s.skip(2))
    } else {
        seq![s[0]] + unescape_backslashes(s.skip(1))
    }
}

/// JSON escaping of backslashes: each `\` written as `\\`, as HidHideCLI
/// writes instance paths into its `--dev-gaming` output.
pub open spec fn escape_backslashes(s: Seq<char>) -> Seq<char>
    decreases s.len(),
{
    if s.len() == 0 {
        seq![]
    } else if s[0] == '\\' {
        seq!['\\', '\\'] + escape_backslashes(s.skip(1))
    } else {
        seq![s[0]] + escape_backslashes(s.skip(1))
    }
}

/// Law: unescaping gives back the path that was escaped, so a path read from
/// `--dev-gaming` is the one that `--dev-list` prints.
pub proof fn lemma_unescape_escape(s: Seq<char>)
    ensures
        unescape_backslashes(escape_backslashes(s)) == s,
    decreases s.len(),
{
    if s.len() > 0 {
        lemma_unescape_escape(s.skip(1));
        let e = escape_backslashes(s);
        if s[0] == '\\' {
            assert(e.skip(2) =~= escape_backslashes(s.skip(1)));
        } else {
            let rest = escape_backslashes(s.skip(1));
            assert(e.skip(1) =~= rest);
        }
        assert(s =~= seq![s[0]] + s.skip(1));
    }
}

/// Whether the lowercased path `lower` holds every pattern.
pub open spec fn matches_all(lower: Seq<char>, patterns: Seq<Seq<char>>) -> bool {
    forall|k: int| 0 <= k < patterns.len() ==> contains_seq(lower, #[trigger] patterns[k])
}

/// The instance paths found in `s` from position `i` on: at each occurrence of
/// the key, the text between the next two double quotes (up to the end of `s`
/// when the second is missing), unescaped, kept when its lowercase form holds
/// every pattern. An empty value is skipped and the scan goes on one position
/// after the key; no first quote after a key ends the scan.
pub open spec fn instance_paths_from(s: Seq<char>, patterns: Seq<Seq<char>>, i: int) -> Seq<
    Seq<char>,
>
    decreases s.len() + 1 - i,
{
    if i < 0 || i + instance_key().len() > s.len() {
        seq![]
    } else if s.subrange(i, i + instance_key().len()) == instance_key() {
        let j = find_char(s, '"', i + instance_key().len());
        if j >= s.len() {
            seq![]
        } else {
            let start = j + 1;
            let end = find_char(s, '"', start);
            proof {
                reveal_strlit("\"deviceInstancePath\"");
                lemma_find_char_bounds(s, '"', i + instance_key().len());
                lemma_find_char_bounds(s, '"', start);
            }
            if end > start {
                let v = unescape_backslashes(s.subrange(start, end));
                let rest = instance_paths_from(s, patterns, end + 1);
                if matches_all(lowercase(v), patterns) {
                    seq![v] + rest
                } else {
                    rest
                }
            } else {
                instance_paths_from(s, patterns, i + 1)
            }
        }
    } else {
        instance_paths_from(s, patterns, i + 1)
    }
}

/// Undoes the JSON escaping of backslashes (see `unescape_backslashes`).
pub fn unescape_chars(s: &[char]) -> (r: Vec<char>)
    ensures
        r@ == unescape_backslashes(s@),
{
    let n = s.len();
    let mut out: Vec<char> = Vec::new();
    let mut i: usize = 0;
    assert(s@.skip(0) =~= s@);
    while i < n
        invariant
            n == s@.len(),
            i <= n,
            out@ + unescape_backslashes(s@.skip(i as int)) == unescape_backslashes(s@),
        decreases n - i,
    {
        let ghost t = s@.skip(i as int);
        let ghost prev = out@;
        if i + 1 < n && s[i] == '\\' && s[i + 1] == '\\' {
            out.push('\\');
            assert(t.skip(2) =~= s@.skip(i + 2));
            assert(out@ =~= prev + seq!['\\']);
            i = i + 2;
        } else {
            out.push(s[i]);
            assert(t.skip(1) =~= s@.skip(i + 1));
            assert(out@ =~= prev + seq![s@[i as int]]);
            i = i + 1;
        }
    }
    assert(s@.skip(n as int) =~= Seq::<char>::empty());
    assert(out@ + unescape_backslashes(s@.skip(n as int)) =~= out@);
    out
}

/// Whether every pattern occurs in `lower`.
pub fn matches_all_patterns(lower: &str, patterns: &[&str]) -> (r: bool)
    ensures
        r == matches_all(lower@, str_views(patterns@)),
{
    let l = chars_of(lower);
    let mut k: usize = 0;
    while k < patterns.len()
        invariant
            k <= patterns@.len(),
            l@ == lower@,
            forall|m: int| 0 <= m < k ==> contains_seq(lower@, #[trigger] str_views(patterns@)[m]),
        decreases patterns.len() - k,
    {
        let p = chars_of(patterns[k]);
        if !contains_chars(&l, &p) {
            assert(str_views(patterns@)[k as int] == p@);
            return false;
        }
        assert(str_views(patterns@)[k as int] == p@);
        k = k + 1;
    }
    true
}

/// Extracts from `--dev-gaming` JSON every `deviceInstancePath` value (with
/// `\\` unescaped to `\`) whose lowercase form contains every pattern, in the
/// order in which they occur.
pub fn extract_instance_paths(json: &str, patterns: &[&str]) -> (r: Vec<String>)
    ensures
        string_views(r@) == instance_paths_from(json@, str_views(patterns@), 0),
{
    let s = chars_of(json);
    let key = chars_of("\"deviceInstancePath\"");
    proof {
        reveal_strlit("\"deviceInstancePath\"");
    }
    let ghost pats = str_views(patterns@);
    let n = s.len();
    let klen = key.len();
    let mut results: Vec<String> = Vec::new();
    let mut i: usize = 0;
    while i <= n && klen <= n - i
        invariant
            n == s@.len(),
            s@ == json@,
            key@ == instance_key(),
            klen == key@.len(),
            klen == 20,
            pats == str_views(patterns@),
            string_views(results@) + instance_paths_from(s@, pats, i as int) == instance_paths_from(
                s@,
                pats,
                0,
            ),
        decreases n + 1 - i,
    {
        let ghost prev = string_views(results@);
        if occurs_at(&s, &key, i) {
            let j = find_char_from(&s, '"', i + klen);
            if j >= n {
                assert(instance_paths_from(s@, pats, i as int) == Seq::<Seq<char>>::empty());
                assert(string_views(results@) =~= string_views(results@) + Seq::<Seq<char>>::empty());
                return results;
            }
            let start = j + 1;
            let end = find_char_from(&s, '"', start);
            if end > start {
                let raw = copy_range(&s, start, end);
                let v = unescape_chars(&raw);
                let val = string_of(&v);
                let lower = to_lowercase(val.as_str());
                if matches_all_patterns(lower.as_str(), patterns) {
                    results.push(val);
                    assert(string_views(results@) =~= prev + seq![v@]);
                }
                if end >= n {
                    assert(instance_paths_from(s@, pats, end + 1) == Seq::<Seq<char>>::empty());
                    assert(string_views(results@) =~= string_views(results@) + Seq::<Seq<char>>::empty());
                    return results;
                }
                i = end + 1;
                continue;
            }
        }
        i = i + 1;
    }
    assert(instance_paths_from(s@, pats, i as int) == Seq::<Seq<char>>::empty());
    assert(string_views(results@) =~= string_views(results@) + Seq::<Seq<char>>::empty());
    results
}


/// Why HidHideCLI cannot be used.
#[derive(Clone, Copy, Debug, PartialEq, Eq, Structural)]
pub enum HidHideError {
    /// HidHideCLI.exe is not at `DEFAULT_CLI_PATH`.
    CliNotFound,
}

/// Reports whether a file exists at `path` (`Path::exists`). The answer
/// depends on the disk, so nothing is stated of it.
#[verifier::external_body]
fn path_exists(path: &str) -> bool {
    std::path::Path::new(path).exists()
}

/// The CLI path to use, given whether the default installation path exists.
pub fn cli_lookup(default_exists: bool) -> (r: Result<String, HidHideError>)
    ensures
        default_exists ==> r is Ok && r->Ok_0@ == DEFAULT_CLI_PATH@,
        !default_exists ==> r == Err::<String, HidHideError>(HidHideError::CliNotFound),
{
    if default_exists {
        Ok(DEFAULT_CLI_PATH.to_owned())
    } else {
        Err(HidHideError::CliNotFound)
    }
}

/// Locates HidHideCLI.exe at its default installation path.
pub fn find_cli() -> (r: Result<String, HidHideError>)
    ensures
        r is Ok ==> r->Ok_0@ == DEFAULT_CLI_PATH@,
        r is Err ==> r->Err_0 == HidHideError::CliNotFound,
{
    cli_lookup(path_exists(DEFAULT_CLI_PATH))
}

/// The global cloak switch, as HidHideCLI reports it.
#[derive(Clone, Copy, Debug, PartialEq, Eq, Structural)]
pub enum CloakState {
    On,
    Off,
    Unknown,
}

/// The cloak state that a `--cloak-state` line names: `--cloak-off` wins over
/// `--cloak-on` when both occur.
pub open spec fn cloak_of(s: Seq<char>) -> CloakState {
    if contains_seq(s, "--cloak-off"@) {
        CloakState::Off
    } else if contains_seq(s, "--cloak-on"@) {
        CloakState::On
    } else {
        CloakState::Unknown
    }
}

/// Reads the cloak state out of one line of CLI output.
pub fn classify_cloak(line: &str) -> (r: CloakState)
    ensures
        r == cloak_of(line@),
{
    let l = chars_of(line);
    let off = chars_of("--cloak-off");
    if contains_chars(&l, &off) {
        return CloakState::Off;
    }
    let on = chars_of("--cloak-on");
    if contains_chars(&l, &on) {
        return CloakState::On;
    }
    CloakState::Unknown
}

/// Reads the cloak state out of the whole `--cloak-state` output (trimmed).
pub fn cloak_state(output: &str) -> (r: CloakState)
    ensures
        r == cloak_of(trim(output@)),
{
    let c = chars_of(output);
    let t = trim_chars(&c);
    let s = string_of(&t);
    classify_cloak(s.as_str())
}

/// Whether `exe` is among the registered `apps`, comparing lowercase forms.
pub open spec fn registered(apps: Seq<Seq<char>>, exe: Seq<char>) -> bool {
    exists|k: int| 0 <= k < apps.len() && lowercase(#[trigger] apps[k]) == lowercase(exe)
}

/// Whether the application path `exe` is registered in `apps`, case-insensitively.
pub fn is_registered(apps: &Vec<String>, exe: &str) -> (r: bool)
    ensures
        r == registered(string_views(apps@), exe@),
{
    let exe_lower = to_lowercase(exe);
    let mut lowered: Vec<String> = Vec::new();
    let mut i: usize = 0;
    while i < apps.len()
        invariant
            i <= apps@.len(),
            lowered@.len() == i,
            forall|k: int| 0 <= k < i ==> (#[trigger] lowered@[k])@ == lowercase(apps@[k]@),
        decreases apps.len() - i,
    {
        let l = to_lowercase(apps[i].as_str());
        lowered.push(l);
        i = i + 1;
    }
    let r = contains_string(&lowered, &exe_lower);
    proof {
        if r {
            let k = choose|k: int| 0 <= k < string_views(lowered@).len() && string_views(lowered@)[k] == exe_lower@;
            assert(lowercase(string_views(apps@)[k]) == lowercase(exe@));
        }
        if registered(string_views(apps@), exe@) {
            let k = choose|k: int| 0 <= k < apps@.len() && lowercase(#[trigger] string_views(apps@)[k]) == lowercase(exe@);
            assert(string_views(lowered@)[k] == exe_lower@);
        }
    }
    r
}

/// Whether the instance path `v` is in the set `hidden` of lowercased hidden paths.
pub open spec fn is_hidden(hidden: Seq<Seq<char>>, v: Seq<char>) -> bool {
    hidden.contains(lowercase(v))
}

/// The instances that `hidden` already hides, in order.
pub open spec fn hidden_instances(instances: Seq<Seq<char>>, hidden: Seq<Seq<char>>) -> Seq<Seq<char>> {
    instances.filter(|v: Seq<char>| is_hidden(hidden, v))
}

/// The instances that `hidden` does not hide, in order.
pub open spec fn visible_instances(instances: Seq<Seq<char>>, hidden: Seq<Seq<char>>) -> Seq<Seq<char>> {
    instances.filter(|v: Seq<char>| !is_hidden(hidden, v))
}

/// The instances split by whether HidHide hides them already.
pub struct HideSplit {
    /// Instances whose lowercase path is in the hidden set.
    pub hidden: Vec<String>,
    /// The other instances.
    pub visible: Vec<String>,
}

/// Splits `instances` by whether their lowercase path is in `hidden` (the
/// parsed `--dev-list`): the ones to unhide when disabling, and the ones to
/// hide when enabling.
pub fn split_by_hidden(instances: &Vec<String>, hidden: &Vec<String>) -> (r: HideSplit)
    ensures
        string_views(r.hidden@) == hidden_instances(string_views(instances@), string_views(hidden@)),
        string_views(r.visible@) == visible_instances(string_views(instances@), string_views(hidden@)),
{
    let ghost all = string_views(instances@);
    let ghost hs = string_views(hidden@);
    let mut hid: Vec<String> = Vec::new();
    let mut vis: Vec<String> = Vec::new();
    let mut i: usize = 0;
    proof {
        reveal_with_fuel(Seq::filter, 1);
        assert(all.take(0) =~= Seq::<Seq<char>>::empty());
    }
    assert(string_views(hid@) =~= hidden_instances(all.take(0), hs));
    assert(string_views(vis@) =~= visible_instances(all.take(0), hs));
    while i < instances.len()
        invariant
            i <= instances@.len(),
            all == string_views(instances@),
            hs == string_views(hidden@),
            string_views(hid@) == hidden_instances(all.take(i as int), hs),
            string_views(vis@) == visible_instances(all.take(i as int), hs),
        decreases instances.len() - i,
    {
        proof {
            reveal_with_fuel(Seq::filter, 1);
            assert(all.take(i + 1).drop_last() =~= all.take(i as int));
            assert(all.take(i + 1).last() == instances@[i as int]@);
        }
        let ghost ph = string_views(hid@);
        let ghost pv = string_views(vis@);
        let low = to_lowercase(instances[i].as_str());
        let inst = instances[i].clone();
        if contains_string(hidden, &low) {
            hid.push(inst);
            assert(string_views(hid@) =~= ph.push(instances@[i as int]@));
        } else {
            vis.push(inst);
            assert(string_views(vis@) =~= pv.push(instances@[i as int]@));
        }
        i = i + 1;
    }
    assert(all.take(instances@.len() as int) =~= all);
    HideSplit { hidden: hid, visible: vis }
}

/// Law: once every instance is hidden, enabling finds nothing left to hide.
pub proof fn lemma_hiding_is_idempotent(instances: Seq<Seq<char>>, hidden: Seq<Seq<char>>)
    requires
        forall|k: int| 0 <= k < instances.len() ==> is_hidden(hidden, #[trigger] instances[k]),
    ensures
        visible_instances(instances, hidden).len() == 0,
        hidden_instances(instances, hidden) == instances,
    decreases instances.len(),
{
    reveal_with_fuel(Seq::filter, 1);
    if instances.len() > 0 {
        let rest = instances.drop_last();
        assert forall|k: int| 0 <= k < rest.len() implies is_hidden(hidden, #[trigger] rest[k]) by {
            assert(rest[k] == instances[k]);
        }
        lemma_hiding_is_idempotent(rest, hidden);
        assert(is_hidden(hidden, instances[instances.len() - 1]));
        assert(rest.push(instances.last()) =~= instances);
    }
}

/// Law: every instance lands on exactly one side of the split.
pub proof fn lemma_split_is_partition(instances: Seq<Seq<char>>, hidden: Seq<Seq<char>>)
    ensures
        hidden_instances(instances, hidden).len() + visible_instances(instances, hidden).len()
            == instances.len(),
    decreases instances.len(),
{
    reveal_with_fuel(Seq::filter, 1);
    if instances.len() > 0 {
        lemma_split_is_partition(instances.drop_last(), hidden);
    }
}


/// What `--cloak-state --app-list --dev-list --dev-gaming` printed, sorted by
/// the kind of line.
pub struct StatusSectionsView {
    /// The last trimmed line that starts with `--cloak-` (empty if none).
    pub cloak: Seq<char>,
    /// The trimmed `--app-reg` lines.
    pub apps: Seq<Seq<char>>,
    /// The trimmed `--dev-hide` lines.
    pub devs: Seq<Seq<char>>,
    /// The JSON lines, untrimmed.
    pub json: Seq<Seq<char>>,
    /// Whether the scan is inside a JSON block that has not closed yet.
    pub in_json: bool,
}

/// One line of the combined output, sorted: a line whose trimmed form starts
/// with `{` opens a JSON block that runs up to and including the next line
/// holding `]`; outside it, lines are taken by their prefix.
pub open spec fn status_step(st: StatusSectionsView, line: Seq<char>) -> StatusSectionsView {
    let t = trim(line);
    if seq!['{'].is_prefix_of(t) || st.in_json {
        StatusSectionsView {
            cloak: st.cloak,
            apps: st.apps,
            devs: st.devs,
            json: st.json.push(line),
            in_json: !t.contains(']'),
        }
    } else if "--cloak-"@.is_prefix_of(t) {
        StatusSectionsView { cloak: t, apps: st.apps, devs: st.devs, json: st.json, in_json: st.in_json }
    } else if "--app-reg"@.is_prefix_of(t) {
        StatusSectionsView { cloak: st.cloak, apps: st.apps.push(t), devs: st.devs, json: st.json, in_json: st.in_json }
    } else if "--dev-hide"@.is_prefix_of(t) {
        StatusSectionsView { cloak: st.cloak, apps: st.apps, devs: st.devs.push(t), json: st.json, in_json: st.in_json }
    } else {
        st
    }
}

/// The sections of the lines `ls`, read in order.
pub open spec fn status_sections(ls: Seq<Seq<char>>) -> StatusSectionsView
    decreases ls.len(),
{
    if ls.len() == 0 {
        StatusSectionsView { cloak: seq![], apps: seq![], devs: seq![], json: seq![], in_json: false }
    } else {
        status_step(status_sections(ls.drop_last()), ls.last())
    }
}

/// The combined status output, sorted by kind of line.
pub struct StatusSections {
    pub cloak_state: String,
    pub app_lines: Vec<String>,
    pub dev_lines: Vec<String>,
    pub json_lines: Vec<String>,
}

/// Whether `c` occurs in `s`.
fn has_char(s: &[char], c: char) -> (r: bool)
    ensures
        r == s@.contains(c),
{
    let mut i: usize = 0;
    while i < s.len()
        invariant
            i <= s@.len(),
            forall|k: int| 0 <= k < i ==> s@[k] != c,
        decreases s.len() - i,
    {
        if s[i] == c {
            return true;
        }
        i = i + 1;
    }
    false
}

/// Sorts the lines of the combined `--cloak-state --app-list --dev-list
/// --dev-gaming` output (see `status_step`).
pub fn split_status_output(combined: &str) -> (r: StatusSections)
    ensures
        r.cloak_state@ == status_sections(lines(combined@)).cloak,
        string_views(r.app_lines@) == status_sections(lines(combined@)).apps,
        string_views(r.dev_lines@) == status_sections(lines(combined@)).devs,
        string_views(r.json_lines@) == status_sections(lines(combined@)).json,
{
    let c = chars_of(combined);
    let ls = split_lines(&c);
    let ghost all = char_vec_views(ls@);
    let brace = vec!['{'];
    let cloak_p = chars_of("--cloak-");
    let app_p = chars_of("--app-reg");
    let dev_p = chars_of("--dev-hide");
    let mut cloak: String = String::new();
    let mut apps: Vec<String> = Vec::new();
    let mut devs: Vec<String> = Vec::new();
    let mut json: Vec<String> = Vec::new();
    let mut in_json = false;
    let mut i: usize = 0;
    assert(all.take(0) =~= Seq::<Seq<char>>::empty());
    assert(brace@ =~= seq!['{']);
    while i < ls.len()
        invariant
            i <= ls@.len(),
            all == char_vec_views(ls@),
            all == lines(combined@),
            brace@ == seq!['{'],
            cloak_p@ == "--cloak-"@,
            app_p@ == "--app-reg"@,
            dev_p@ == "--dev-hide"@,
            ({
                let st = status_sections(all.take(i as int));
                &&& cloak@ == st.cloak
                &&& string_views(apps@) == st.apps
                &&& string_views(devs@) == st.devs
                &&& string_views(json@) == st.json
                &&& in_json == st.in_json
            }),
        decreases ls.len() - i,
    {
        proof {
            assert(all.take(i + 1).drop_last() =~= all.take(i as int));
            assert(all.take(i + 1).last() == ls@[i as int]@);
        }
        let ghost pa = string_views(apps@);
        let ghost pd = string_views(devs@);
        let ghost pj = string_views(json@);
        let line = &ls[i];
        let t = trim_chars(line);
        if starts_with(&t, &brace) || in_json {
            in_json = true;
            json.push(string_of(line));
            assert(string_views(json@) =~= pj.push(line@));
            if has_char(&t, ']') {
                in_json = false;
            }
        } else if starts_with(&t, &cloak_p) {
            cloak = string_of(&t);
        } else if starts_with(&t, &app_p) {
            apps.push(string_of(&t));
            assert(string_views(apps@) =~= pa.push(t@));
        } else if starts_with(&t, &dev_p) {
            devs.push(string_of(&t));
            assert(string_views(devs@) =~= pd.push(t@));
        }
        i = i + 1;
    }
    assert(all.take(ls@.len() as int) =~= all);
    StatusSections { cloak_state: cloak, app_lines: apps, dev_lines: devs, json_lines: json }
}


/// The patterns of `OBOX_PATTERNS`, as text.
pub open spec fn obox_patterns() -> Seq<Seq<char>> {
    str_views(OBOX_PATTERNS@)
}

/// What `--hidhide-status` shows.
pub struct HidHideStatus {
    /// The `--cloak-...` line.
    pub cloak_line: String,
    /// The state that line names.
    pub cloak: CloakState,
    /// Whether the running executable is registered.
    pub app_registered: bool,
    /// How many distinct applications are registered.
    pub registered_count: usize,
    /// The OBOX gamepad instance paths that `--dev-gaming` lists.
    pub instances: Vec<String>,
    /// For each instance, whether `--dev-list` hides it.
    pub instance_hidden: Vec<bool>,
}

/// Reads the combined `--cloak-state --app-list --dev-list --dev-gaming`
/// output, for the executable at `exe`.
pub fn summarize_status(combined: &str, exe: &str) -> (r: HidHideStatus)
    ensures
        ({
            let st = status_sections(lines(combined@));
            let apps = quoted_value_set(st.apps, "--app-reg"@);
            let hidden = quoted_value_set(st.devs, "--dev-hide"@);
            let insts = instance_paths_from(join_with(st.json, "\n"@), obox_patterns(), 0);
            &&& r.cloak_line@ == st.cloak
            &&& r.cloak == cloak_of(st.cloak)
            &&& r.app_registered == registered(apps, exe@)
            &&& r.registered_count == apps.len()
            &&& string_views(r.instances@) == insts
            &&& r.instance_hidden@.len() == insts.len()
            &&& forall|k: int|
                0 <= k < insts.len() ==> r.instance_hidden@[k] == is_hidden(hidden, #[trigger] insts[k])
        }),
{
    let sections = split_status_output(combined);
    let mut app_refs: Vec<&str> = Vec::new();
    let mut i: usize = 0;
    while i < sections.app_lines.len()
        invariant
            i <= sections.app_lines@.len(),
            app_refs@.len() == i,
            forall|k: int| 0 <= k < i ==> (#[trigger] app_refs@[k])@ == sections.app_lines@[k]@,
        decreases sections.app_lines.len() - i,
    {
        app_refs.push(sections.app_lines[i].as_str());
        i = i + 1;
    }
    assert(str_views(app_refs@) =~= string_views(sections.app_lines@));
    let mut dev_refs: Vec<&str> = Vec::new();
    let mut i: usize = 0;
    while i < sections.dev_lines.len()
        invariant
            i <= sections.dev_lines@.len(),
            dev_refs@.len() == i,
            forall|k: int| 0 <= k < i ==> (#[trigger] dev_refs@[k])@ == sections.dev_lines@[k]@,
        decreases sections.dev_lines.len() - i,
    {
        dev_refs.push(sections.dev_lines[i].as_str());
        i = i + 1;
    }
    assert(str_views(dev_refs@) =~= string_views(sections.dev_lines@));
    let apps = parse_quoted_values(app_refs.as_slice(), "--app-reg");
    let hidden = parse_quoted_values(dev_refs.as_slice(), "--dev-hide");
    let app_registered = is_registered(&apps, exe);
    let json = join_strings(&sections.json_lines, "\n");
    let instances = extract_instance_paths(json.as_str(), OBOX_PATTERNS.as_slice());
    let mut flags: Vec<bool> = Vec::new();
    let mut k: usize = 0;
    while k < instances.len()
        invariant
            k <= instances@.len(),
            flags@.len() == k,
            forall|m: int| 0 <= m < k ==> #[trigger] flags@[m] == is_hidden(string_views(hidden@), instances@[m]@),
        decreases instances.len() - k,
    {
        let low = to_lowercase(instances[k].as_str());
        flags.push(contains_string(&hidden, &low));
        k = k + 1;
    }
    let cloak = classify_cloak(sections.cloak_state.as_str());
    HidHideStatus {
        cloak_line: sections.cloak_state,
        cloak,
        app_registered,
        registered_count: apps.len(),
        instances,
        instance_hidden: flags,
    }
}


/// A configuring HidHideCLI command.
#[derive(Debug)]
pub enum CliCall {
    /// `--app-reg <path>`: register an application.
    AppReg(String),
    /// `--dev-hide <path>`: hide a device instance.
    DevHide(String),
    /// `--dev-unhide <path>`: unhide a device instance.
    DevUnhide(String),
    /// `--cloak-on`: switch the global cloak on.
    CloakOn,
}

/// The registration that enabling runs: `--app-reg exe` unless `--app-list`
/// already registers `exe`.
pub fn register_call(app_list: &str, exe: &str) -> (r: Option<CliCall>)
    ensures
        registered(quoted_value_set(lines(app_list@), "--app-reg"@), exe@) ==> r is None,
        !registered(quoted_value_set(lines(app_list@), "--app-reg"@), exe@) ==> (r matches Some(
            CliCall::AppReg(p),
        ) && p@ == exe@),
{
    let apps = parse_app_list(app_list);
    if is_registered(&apps, exe) {
        None
    } else {
        Some(CliCall::AppReg(string_of(&chars_of(exe))))
    }
}

/// The OBOX instances of a `--dev-gaming` output and the commands for them.
pub struct HidHidePlan {
    /// The OBOX gamepad instance paths found.
    pub instances: Vec<String>,
    /// The commands to run, one per instance that needs it, in order.
    pub calls: Vec<CliCall>,
}

/// The OBOX instance paths of a `--dev-gaming` output.
pub open spec fn obox_instances(gaming_json: Seq<char>) -> Seq<Seq<char>> {
    instance_paths_from(gaming_json, obox_patterns(), 0)
}

/// The hidden set of a `--dev-list` output.
pub open spec fn hidden_set(dev_list: Seq<char>) -> Seq<Seq<char>> {
    quoted_value_set(lines(dev_list), "--dev-hide"@)
}

/// What enabling does to the controller: `--dev-hide` for each OBOX instance
/// that `--dev-list` does not hide yet, and nothing else.
pub fn plan_hide(gaming_json: &str, dev_list: &str) -> (r: HidHidePlan)
    ensures
        string_views(r.instances@) == obox_instances(gaming_json@),
        r.calls@.len() == visible_instances(obox_instances(gaming_json@), hidden_set(dev_list@)).len(),
        forall|k: int|
            0 <= k < r.calls@.len() ==> (#[trigger] r.calls@[k] matches CliCall::DevHide(p) && p@
                == visible_instances(obox_instances(gaming_json@), hidden_set(dev_list@))[k]),
{
    let hidden = parse_dev_list(dev_list);
    let instances = extract_instance_paths(gaming_json, OBOX_PATTERNS.as_slice());
    let split = split_by_hidden(&instances, &hidden);
    let mut calls: Vec<CliCall> = Vec::new();
    let mut i: usize = 0;
    while i < split.visible.len()
        invariant
            i <= split.visible@.len(),
            calls@.len() == i,
            forall|k: int|
                0 <= k < i ==> (#[trigger] calls@[k] matches CliCall::DevHide(p) && p@ == split.visible@[k]@),
        decreases split.visible.len() - i,
    {
        calls.push(CliCall::DevHide(split.visible[i].clone()));
        i = i + 1;
    }
    proof {
        assert forall|k: int| 0 <= k < calls@.len() implies #[trigger] calls@[k] matches CliCall::DevHide(p)
            && p@ == visible_instances(obox_instances(gaming_json@), hidden_set(dev_list@))[k] by {
            assert(string_views(split.visible@)[k] == split.visible@[k]@);
        }
    }
    HidHidePlan { instances, calls }
}

/// What disabling does: `--dev-unhide` for each OBOX instance that
/// `--dev-list` hides, and nothing else (the cloak switch is left alone).
pub fn plan_unhide(gaming_json: &str, dev_list: &str) -> (r: HidHidePlan)
    ensures
        string_views(r.instances@) == obox_instances(gaming_json@),
        r.calls@.len() == hidden_instances(obox_instances(gaming_json@), hidden_set(dev_list@)).len(),
        forall|k: int|
            0 <= k < r.calls@.len() ==> (#[trigger] r.calls@[k] matches CliCall::DevUnhide(p) && p@
                == hidden_instances(obox_instances(gaming_json@), hidden_set(dev_list@))[k]),
{
    let hidden = parse_dev_list(dev_list);
    let instances = extract_instance_paths(gaming_json, OBOX_PATTERNS.as_slice());
    let split = split_by_hidden(&instances, &hidden);
    let mut calls: Vec<CliCall> = Vec::new();
    let mut i: usize = 0;
    while i < split.hidden.len()
        invariant
            i <= split.hidden@.len(),
            calls@.len() == i,
            forall|k: int|
                0 <= k < i ==> (#[trigger] calls@[k] matches CliCall::DevUnhide(p) && p@ == split.hidden@[k]@),
        decreases split.hidden.len() - i,
    {
        calls.push(CliCall::DevUnhide(split.hidden[i].clone()));
        i = i + 1;
    }
    proof {
        assert forall|k: int| 0 <= k < calls@.len() implies #[trigger] calls@[k] matches CliCall::DevUnhide(p)
            && p@ == hidden_instances(obox_instances(gaming_json@), hidden_set(dev_list@))[k] by {
            assert(string_views(split.hidden@)[k] == split.hidden@[k]@);
        }
    }
    HidHidePlan { instances, calls }
}

/// The cloak command that enabling runs: `--cloak-on` exactly when
/// `--cloak-state` reports the cloak off (an unknown state is left alone).
pub fn cloak_call(state_output: &str) -> (r: Option<CliCall>)
    ensures
        r is Some <==> cloak_of(trim(state_output@)) == CloakState::Off,
        r matches Some(c) ==> c is CloakOn,
{
    match cloak_state(state_output) {
        CloakState::Off => Some(CliCall::CloakOn),
        _ => None,
    }
}

/// Law: once HidHide reports the cloak on, enabling runs no cloak command.
pub proof fn lemma_cloak_on_is_stable()
    ensures
        cloak_of(trim("--cloak-on"@)) == CloakState::On,
{
    reveal_strlit("--cloak-on");
    reveal_strlit("--cloak-off");
    let s = "--cloak-on"@;
    assert(trim_start(s) == s);
    assert(trim_end(s) == s);
    assert(s.subrange(0, 0 + s.len() as int) =~= s);
    assert(contains_seq(s, s));
}

/// Law: once every OBOX instance is hidden, enabling runs no `--dev-hide`.
pub proof fn lemma_enable_hides_nothing_twice(gaming_json: Seq<char>, dev_list: Seq<char>)
    requires
        forall|k: int|
            0 <= k < obox_instances(gaming_json).len() ==> is_hidden(
                hidden_set(dev_list),
                #[trigger] obox_instances(gaming_json)[k],
            ),
    ensures
        visible_instances(obox_instances(gaming_json), hidden_set(dev_list)).len() == 0,
{
    lemma_hiding_is_idempotent(obox_instances(gaming_json), hidden_set(dev_list));
}


proof fn lemma_escape_chars(p: Seq<char>)
    ensures
        escape_backslashes(p).len() >= p.len(),
        forall|k: int|
            0 <= k < escape_backslashes(p).len() ==> #[trigger] escape_backslashes(p)[k] == '\\'
                || p.contains(escape_backslashes(p)[k]),
    decreases p.len(),
{
    if p.len() > 0 {
        let t = p.skip(1);
        lemma_escape_chars(t);
        let e = escape_backslashes(p);
        let et = escape_backslashes(t);
        assert forall|k: int| 0 <= k < e.len() implies #[trigger] e[k] == '\\' || p.contains(e[k]) by {
            if p[0] == '\\' {
                if k >= 2 {
                    assert(e[k] == et[k - 2]);
                    if t.contains(et[k - 2]) {
                        let j = choose|j: int| 0 <= j < t.len() && t[j] == et[k - 2];
                        assert(p[j + 1] == t[j]);
                    }
                }
            } else {
                if k == 0 {
                    assert(p[0] == e[0]);
                } else {
                    assert(e[k] == et[k - 1]);
                    if t.contains(et[k - 1]) {
                        let j = choose|j: int| 0 <= j < t.len() && t[j] == et[k - 1];
                        assert(p[j + 1] == t[j]);
                    }
                }
            }
        }
    }
}

/// The `--dev-gaming` JSON object that lists the instance path `p`
/// (backslashes escaped).
pub open spec fn gaming_object(p: Seq<char>) -> Seq<char> {
    seq!['{', ' '] + instance_key() + seq![' ', ':', ' ', '"'] + escape_backslashes(p) + seq!['"', ' ', '}']
}

/// The line `<prefix> "<p>"`, as HidHideCLI prints one entry of a list.
pub open spec fn quoted_line(prefix: Seq<char>, p: Seq<char>) -> Seq<char> {
    prefix + seq![' ', '"'] + p + seq!['"']
}

/// A line `<prefix> "<p>"` carries the value `p`.
pub proof fn lemma_quoted_line_value(prefix: Seq<char>, p: Seq<char>)
    requires
        prefix.len() > 0,
        !is_white_space(prefix[0]),
    ensures
        quoted_value(quoted_line(prefix, p), prefix) == Some(p),
{
    let l = quoted_line(prefix, p);
    assert(l[0] == prefix[0]);
    assert(trim_start(l) == l);
    assert(l.last() == '"');
    assert(trim_end(l) == l);
    assert(l.subrange(0, prefix.len() as int) =~= prefix);
    let after = l.skip(prefix.len() as int);
    assert(after =~= seq![' ', '"'] + p + seq!['"']);
    let q = seq!['"'] + p + seq!['"'];
    assert(after.drop_first() =~= q);
    assert(trim_start(q) == q);
    assert(trim_start(after) == q);
    assert(trim_end(q) == q);
    assert(q.subrange(1, q.len() - 1) =~= p);
}

/// The `--dev-list` line that hides the instance path `p`.
pub open spec fn dev_hide_line(p: Seq<char>) -> Seq<char> {
    quoted_line("--dev-hide"@, p)
}

proof fn lemma_find_char_shift(a: Seq<char>, b: Seq<char>, c: char, k: int)
    requires
        0 <= k <= b.len(),
    ensures
        find_char(a + b, c, a.len() + k) == a.len() + find_char(b, c, k),
    decreases b.len() - k,
{
    let t = a + b;
    if k < b.len() {
        assert(t[a.len() + k] == b[k]);
        if b[k] != c {
            lemma_find_char_shift(a, b, c, k + 1);
        }
    }
}

/// Law: the scan for instance paths only looks ahead: scanning `a + b` from
/// a position inside `b` finds what scanning `b` alone finds from there.
pub proof fn lemma_instance_paths_shift(a: Seq<char>, b: Seq<char>, patterns: Seq<Seq<char>>, i: int)
    requires
        0 <= i,
    ensures
        instance_paths_from(a + b, patterns, a.len() + i) == instance_paths_from(b, patterns, i),
    decreases b.len() + 1 - i,
{
    reveal_strlit("\"deviceInstancePath\"");
    let t = a + b;
    let n = a.len() as int;
    let kl = instance_key().len() as int;
    if i + kl <= b.len() {
        assert(t.subrange(n + i, n + i + kl) =~= b.subrange(i, i + kl));
        if b.subrange(i, i + kl) == instance_key() {
            lemma_find_char_shift(a, b, '"', i + kl);
            lemma_find_char_bounds(b, '"', i + kl);
            let j = find_char(b, '"', i + kl);
            if j < b.len() {
                lemma_find_char_shift(a, b, '"', j + 1);
                lemma_find_char_bounds(b, '"', j + 1);
                let end = find_char(b, '"', j + 1);
                if end > j + 1 {
                    assert(t.subrange(n + j + 1, n + end) =~= b.subrange(j + 1, end));
                    lemma_instance_paths_shift(a, b, patterns, end + 1);
                } else {
                    lemma_instance_paths_shift(a, b, patterns, i + 1);
                }
            }
        } else {
            lemma_instance_paths_shift(a, b, patterns, i + 1);
        }
    }
}

proof fn lemma_skip_quote_free(a: Seq<char>, b: Seq<char>, patterns: Seq<Seq<char>>, i: int)
    requires
        0 <= i <= a.len(),
        forall|m: int| i <= m < a.len() ==> a[m] != '"',
    ensures
        instance_paths_from(a + b, patterns, i) == instance_paths_from(b, patterns, 0),
    decreases a.len() - i,
{
    reveal_strlit("\"deviceInstancePath\"");
    let t = a + b;
    if i == a.len() {
        lemma_instance_paths_shift(a, b, patterns, 0);
    } else {
        let kl = instance_key().len() as int;
        if i + kl <= t.len() {
            assert(t.subrange(i, i + kl)[0] == a[i]);
            assert(t.subrange(i, i + kl)[0] != instance_key()[0]);
        }
        assert(instance_paths_from(t, patterns, i) == instance_paths_from(t, patterns, i + 1));
        lemma_skip_quote_free(a, b, patterns, i + 1);
    }
}

/// Law: text without a double quote before the JSON (such as `[ ` or `, `
/// between objects) adds no path and hides none that follows.
pub proof fn lemma_quote_free_prefix(a: Seq<char>, b: Seq<char>, patterns: Seq<Seq<char>>)
    requires
        !a.contains('"'),
    ensures
        instance_paths_from(a + b, patterns, 0) == instance_paths_from(b, patterns, 0),
{
    assert forall|m: int| 0 <= m < a.len() implies a[m] != '"' by {
        if a[m] == '"' {
            assert(a.contains(a[m]));
        }
    }
    lemma_skip_quote_free(a, b, patterns, 0);
}

/// Law: a `--dev-gaming` object for the instance path `p` (not empty, without
/// quotes) put before any text `b` adds `p`, in its own case, when its
/// lowercase form holds every pattern, and nothing otherwise; the paths of
/// `b` all follow, whatever `p` is.
pub proof fn lemma_gaming_object_then(p: Seq<char>, b: Seq<char>, patterns: Seq<Seq<char>>)
    requires
        p.len() > 0,
        !p.contains('"'),
    ensures
        instance_paths_from(gaming_object(p) + b, patterns, 0) == (if matches_all(
            lowercase(p),
            patterns,
        ) {
            seq![p]
        } else {
            Seq::<Seq<char>>::empty()
        }) + instance_paths_from(b, patterns, 0),
{
    reveal_strlit("\"deviceInstancePath\"");
    let key = instance_key();
    let e = escape_backslashes(p);
    lemma_escape_chars(p);
    lemma_unescape_escape(p);
    let g = gaming_object(p);
    let s = g + b;
    assert(g.len() == 29 + e.len());
    let n = s.len();
    assert(s[0] == '{');
    assert(s[1] == ' ');
    assert(s.subrange(0, 20)[0] != key[0]);
    assert(s.subrange(1, 21)[0] != key[0]);
    assert(s.subrange(2, 22) =~= key);
    lemma_find_char_is(s, '"', 22, 25);
    assert forall|m: int| 26 <= m < 26 + e.len() implies s[m] != '"' by {
        assert(s[m] == e[m - 26]);
        if e[m - 26] == '"' {
            assert(p.contains(e[m - 26]));
        }
    }
    assert(s[(26 + e.len()) as int] == '"');
    lemma_find_char_is(s, '"', 26, (26 + e.len()) as int);
    assert(s.subrange(26, (26 + e.len()) as int) =~= e);
    let q = (27 + e.len()) as int;
    assert(s[q] == ' ');
    assert(s[q + 1] == '}');
    if q + 20 <= n {
        assert(s.subrange(q, q + 20)[0] != key[0]);
    }
    assert(instance_paths_from(s, patterns, q) == instance_paths_from(s, patterns, q + 1));
    if q + 21 <= n {
        assert(s.subrange(q + 1, q + 21)[0] != key[0]);
    }
    assert(instance_paths_from(s, patterns, q + 1) == instance_paths_from(s, patterns, q + 2));
    lemma_instance_paths_shift(g, b, patterns, 0);
    assert(instance_paths_from(s, patterns, q + 2) == instance_paths_from(b, patterns, 0));
    let rest = instance_paths_from(b, patterns, 0);
    if matches_all(lowercase(p), patterns) {
        assert(instance_paths_from(s, patterns, 2) == seq![p] + rest);
    } else {
        assert(instance_paths_from(s, patterns, 2) == rest);
        assert(Seq::<Seq<char>>::empty() + rest =~= rest);
    }
    assert(instance_paths_from(s, patterns, 1) == instance_paths_from(s, patterns, 2));
    assert(instance_paths_from(s, patterns, 0) == instance_paths_from(s, patterns, 1));
}

/// Law: a `--dev-gaming` object whose path does not match, put before any
/// text, leaves the paths found in that text unchanged: the scan goes on past
/// it.
pub proof fn lemma_non_matching_object_is_skipped(p: Seq<char>, b: Seq<char>, patterns: Seq<Seq<char>>)
    requires
        p.len() > 0,
        !p.contains('"'),
        !matches_all(lowercase(p), patterns),
    ensures
        instance_paths_from(gaming_object(p) + b, patterns, 0) == instance_paths_from(b, patterns, 0),
{
    lemma_gaming_object_then(p, b, patterns);
    assert(Seq::<Seq<char>>::empty() + instance_paths_from(b, patterns, 0) =~= instance_paths_from(
        b,
        patterns,
        0,
    ));
}

/// The paths extracted from the `--dev-gaming` object of the instance path
/// `p` (not empty, without quotes): `p` itself, in its own case, when its
/// lowercase form holds every pattern, and nothing otherwise.
pub proof fn lemma_gaming_object_paths(p: Seq<char>, patterns: Seq<Seq<char>>)
    requires
        p.len() > 0,
        !p.contains('"'),
    ensures
        instance_paths_from(gaming_object(p), patterns, 0) == if matches_all(lowercase(p), patterns) {
            seq![p]
        } else {
            Seq::<Seq<char>>::empty()
        },
{
    reveal_strlit("\"deviceInstancePath\"");
    let b = Seq::<char>::empty();
    lemma_gaming_object_then(p, b, patterns);
    assert(gaming_object(p) + b =~= gaming_object(p));
    assert(instance_paths_from(b, patterns, 0) == Seq::<Seq<char>>::empty());
    let head = if matches_all(lowercase(p), patterns) {
        seq![p]
    } else {
        Seq::<Seq<char>>::empty()
    };
    assert(head + Seq::<Seq<char>>::empty() =~= head);
}

/// Law: matching is decided on the lowercase form of a path, and each path
/// found keeps its own case: two instance paths with the same lowercase form
/// are both found, or both not, each as it is written.
pub proof fn lemma_matching_ignores_case(p1: Seq<char>, p2: Seq<char>, patterns: Seq<Seq<char>>)
    requires
        p1.len() > 0,
        p2.len() > 0,
        !p1.contains('"'),
        !p2.contains('"'),
        lowercase(p1) == lowercase(p2),
    ensures
        instance_paths_from(gaming_object(p1), patterns, 0).len() == instance_paths_from(
            gaming_object(p2),
            patterns,
            0,
        ).len(),
        instance_paths_from(gaming_object(p1), patterns, 0).len() > 0 ==> instance_paths_from(
            gaming_object(p1),
            patterns,
            0,
        ) == seq![p1] && instance_paths_from(gaming_object(p2), patterns, 0) == seq![p2],
{
    lemma_gaming_object_paths(p1, patterns);
    lemma_gaming_object_paths(p2, patterns);
}

/// Law: an instance path `p` (not empty, without quotes or line breaks) that
/// `--dev-gaming` lists is extracted exactly, and its lowercase form is what
/// the `--dev-list` line hiding `p` parses to, so the two match.
pub proof fn lemma_dev_gaming_path_matches_dev_list(p: Seq<char>, patterns: Seq<Seq<char>>)
    requires
        p.len() > 0,
        !p.contains('"'),
        !p.contains('\n'),
        matches_all(lowercase(p), patterns),
    ensures
        instance_paths_from(gaming_object(p), patterns, 0) == seq![p],
        quoted_value_set(lines(dev_hide_line(p)), "--dev-hide"@) == seq![lowercase(p)],
{
    reveal_strlit("--dev-hide");
    lemma_gaming_object_paths(p, patterns);
    let l = dev_hide_line(p);
    let ln = l.len();
    assert(ln == 13 + p.len());
    assert forall|m: int| 0 <= m < ln implies l[m] != '\n' by {
        if 12 <= m < 12 + p.len() {
            assert(l[m] == p[m - 12]);
            if p[m - 12] == '\n' {
                assert(p.contains(p[m - 12]));
            }
        }
    }
    lemma_find_char_is(l, '\n', 0, ln as int);
    assert(lines(l) == seq![l]);
    lemma_quoted_line_value("--dev-hide"@, p);
    let vals = quoted_values(seq![l], "--dev-hide"@);
    assert(seq![l].drop_last() =~= Seq::<Seq<char>>::empty());
    assert(seq![l].last() == l);
    assert(lowered_quoted_value(l, "--dev-hide"@) == Some(lowercase(p)));
    assert(quoted_values(Seq::<Seq<char>>::empty(), "--dev-hide"@) =~= Seq::<Seq<char>>::empty());
    assert(vals == quoted_values(seq![l].drop_last(), "--dev-hide"@) + seq![lowercase(p)]);
    assert(vals =~= seq![lowercase(p)]);
    reveal_with_fuel(Seq::remove_duplicates, 2);
    assert(vals.skip(1) =~= Seq::<Seq<char>>::empty());
    assert(seq![] + seq![lowercase(p)] =~= seq![lowercase(p)]);
}

/// The `--app-list` output that registers the paths `vs`: one line
/// `--app-reg "<path>"` per path, each ended by a line break.
pub open spec fn app_list_text(vs: Seq<Seq<char>>) -> Seq<char>
    decreases vs.len(),
{
    if vs.len() == 0 {
        seq![]
    } else {
        quoted_line("--app-reg"@, vs[0]) + seq!['\n'] + app_list_text(vs.skip(1))
    }
}

/// The lines `--app-reg "<path>"` for the paths `vs`.
pub open spec fn app_reg_lines(vs: Seq<Seq<char>>) -> Seq<Seq<char>> {
    Seq::new(vs.len(), |k: int| quoted_line("--app-reg"@, vs[k]))
}

proof fn lemma_app_list_lines(vs: Seq<Seq<char>>)
    requires
        forall|k: int| 0 <= k < vs.len() ==> !(#[trigger] vs[k]).contains('\n'),
    ensures
        lines(app_list_text(vs)) == app_reg_lines(vs),
    decreases vs.len(),
{
    reveal_strlit("--app-reg");
    if vs.len() > 0 {
        let rest = vs.skip(1);
        assert forall|k: int| 0 <= k < rest.len() implies !(#[trigger] rest[k]).contains('\n') by {
            assert(rest[k] == vs[k + 1]);
        }
        lemma_app_list_lines(rest);
        let p = vs[0];
        let l = quoted_line("--app-reg"@, p);
        let s = app_list_text(vs);
        assert(l.len() == 12 + p.len());
        assert forall|m: int| 0 <= m < l.len() implies s[m] != '\n' by {
            assert(s[m] == l[m]);
            if 11 <= m < 11 + p.len() {
                assert(l[m] == p[m - 11]);
                if p[m - 11] == '\n' {
                    assert(p.contains(p[m - 11]));
                }
            }
        }
        assert(s[l.len() as int] == '\n');
        lemma_find_char_is(s, '\n', 0, l.len() as int);
        assert(s.take(l.len() as int) =~= l);
        assert(s.skip((l.len() + 1) as int) =~= app_list_text(rest));
        assert(l.last() == '"');
        assert(strip_cr(l) == l);
        assert(lines(s) == seq![l] + lines(app_list_text(rest)));
        assert(lines(s) =~= app_reg_lines(vs));
    }
}

proof fn lemma_app_reg_values(vs: Seq<Seq<char>>)
    requires
        forall|k: int| 0 <= k < vs.len() ==> lowercase(#[trigger] vs[k]) == vs[k],
    ensures
        quoted_values(app_reg_lines(vs), "--app-reg"@) == vs,
    decreases vs.len(),
{
    reveal_strlit("--app-reg");
    if vs.len() > 0 {
        let init = vs.drop_last();
        assert forall|k: int| 0 <= k < init.len() implies lowercase(#[trigger] init[k]) == init[k] by {
            assert(init[k] == vs[k]);
        }
        lemma_app_reg_values(init);
        let ls = app_reg_lines(vs);
        assert(ls.drop_last() =~= app_reg_lines(init));
        lemma_quoted_line_value("--app-reg"@, vs.last());
        assert(ls.last() == quoted_line("--app-reg"@, vs.last()));
        assert(lowercase(vs[vs.len() - 1]) == vs[vs.len() - 1]);
        assert(quoted_values(ls, "--app-reg"@) == quoted_values(ls.drop_last(), "--app-reg"@) + seq![vs.last()]);
        assert(vs =~= init + seq![vs.last()]);
    }
}

proof fn lemma_remove_duplicates_of_distinct(s: Seq<Seq<char>>)
    requires
        s.no_duplicates(),
    ensures
        s.remove_duplicates(seq![]) == s,
    decreases s.len(),
{
    if s.len() > 0 {
        let init = s.drop_last();
        assert(init.no_duplicates()) by {
            assert forall|i: int, j: int| 0 <= i < init.len() && 0 <= j < init.len() && i != j implies init[i] != init[j] by {
                assert(init[i] == s[i] && init[j] == s[j]);
            }
        }
        lemma_remove_duplicates_of_distinct(init);
        init.lemma_remove_duplicates_append(s.last(), seq![]);
        assert(init + seq![] =~= init);
        if init.contains(s.last()) {
            let i = choose|i: int| 0 <= i < init.len() && init[i] == s.last();
            assert(s[i] == s[s.len() - 1]);
        }
        assert(s =~= init + seq![s.last()]);
    }
}

/// Law: paths that lowercasing leaves unchanged, without repeats or line
/// breaks, written back as `--app-list` prints them (one `--app-reg "<path>"`
/// line each, in any order), parse to the same paths in the same order.
pub proof fn lemma_app_list_round_trip(vs: Seq<Seq<char>>)
    requires
        vs.no_duplicates(),
        forall|k: int| 0 <= k < vs.len() ==> lowercase(#[trigger] vs[k]) == vs[k],
        forall|k: int| 0 <= k < vs.len() ==> !(#[trigger] vs[k]).contains('\n'),
    ensures
        quoted_value_set(lines(app_list_text(vs)), "--app-reg"@) == vs,
{
    lemma_app_list_lines(vs);
    lemma_app_reg_values(vs);
    lemma_remove_duplicates_of_distinct(vs);
}

/// Law: once `--app-list` lists the path `exe`, enabling registers nothing
/// more (`register_call` gives `None`), for a path whose lowercase form
/// lowercasing leaves unchanged.
pub proof fn lemma_registration_is_stable(app_list: Seq<char>, exe: Seq<char>)
    requires
        exists|k: int|
            0 <= k < lines(app_list).len() && quoted_value(#[trigger] lines(app_list)[k], "--app-reg"@)
                == Some(exe),
        lowercase(lowercase(exe)) == lowercase(exe),
    ensures
        registered(quoted_value_set(lines(app_list), "--app-reg"@), exe),
{
    let ls = lines(app_list);
    let k = choose|k: int| 0 <= k < ls.len() && quoted_value(#[trigger] ls[k], "--app-reg"@) == Some(exe);
    assert(lowered_quoted_value(ls[k], "--app-reg"@) == Some(lowercase(exe)));
    assert(some_line_gives(ls, "--app-reg"@, lowercase(exe)));
    lemma_quoted_value_set_members(ls, "--app-reg"@, lowercase(exe));
    let set = quoted_value_set(ls, "--app-reg"@);
    let j = choose|j: int| 0 <= j < set.len() && set[j] == lowercase(exe);
    assert(lowercase(set[j]) == lowercase(exe));
}

/// Law: once HidHide reflects a first enabling (`--app-list` lists `exe`,
/// `--dev-list` hides every OBOX instance, `--cloak-state` prints
/// `--cloak-on`), a second enabling runs no configuring command:
/// `register_call` and `cloak_call` give `None` and `plan_hide` no call. The
/// registration part is for a path whose lowercase form lowercasing leaves
/// unchanged.
pub proof fn lemma_enable_is_idempotent(
    app_list: Seq<char>,
    exe: Seq<char>,
    gaming_json: Seq<char>,
    dev_list: Seq<char>,
)
    requires
        exists|k: int|
            0 <= k < lines(app_list).len() && quoted_value(#[trigger] lines(app_list)[k], "--app-reg"@)
                == Some(exe),
        lowercase(lowercase(exe)) == lowercase(exe),
        forall|k: int|
            0 <= k < obox_instances(gaming_json).len() ==> is_hidden(
                hidden_set(dev_list),
                #[trigger] obox_instances(gaming_json)[k],
            ),
    ensures
        registered(quoted_value_set(lines(app_list), "--app-reg"@), exe),
        visible_instances(obox_instances(gaming_json), hidden_set(dev_list)).len() == 0,
        cloak_of(trim("--cloak-on"@)) != CloakState::Off,
{
    lemma_registration_is_stable(app_list, exe);
    lemma_enable_hides_nothing_twice(gaming_json, dev_list);
    lemma_cloak_on_is_stable();
}

} // verus!
