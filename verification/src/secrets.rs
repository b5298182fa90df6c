//! The scan for files that look like secrets, by name and by content.

use vstd::prelude::*;
use vstd::utf8::{encode_utf8, is_ascii_chars};
use crate::command::Ran;
use crate::text::{
    after_bytes, after_last, ascii_lowered, ascii_uppered, before, begins, byte_len, chars_of,
    contains, cut, ends, ends_with, find_from, has_text, lines, lines_of, lower_ascii,
    lowercase, same, skip_bytes, starts_with, tail_after, text_of, texts, trim, trimmed,
    unquote, unquoted, views,
};

verus! {

broadcast use vstd::string::group_string_axioms;

/// A file that looks like a secret.
#[derive(Debug, Clone)]
pub struct Finding {
    pub repo: String,
    pub file: String,
    pub reason: String,
}

/// What a finding says.
pub struct FindingView {
    pub repo: Seq<char>,
    pub file: Seq<char>,
    pub reason: Seq<char>,
}

impl View for Finding {
    type V = FindingView;

    open spec fn view(&self) -> FindingView {
        FindingView { repo: self.repo@, file: self.file@, reason: self.reason@ }
    }
}

/// The views of findings.
pub open spec fn findings(v: Seq<Finding>) -> Seq<FindingView> {
    v.map_values(|f: Finding| f@)
}

/// Names of files that are almost always secrets.
pub open spec fn secret_file(base: Seq<char>) -> bool {
    ||| base == ".env"@
    ||| base == ".env.bak"@
    ||| base == ".sesskey"@
    ||| base == "credentials.json"@
    ||| base == "credentials.yml"@
    ||| base == "client_secret.json"@
    ||| base == "service-account.json"@
    ||| base == ".netrc"@
    ||| begins(base, "id_"@)
    ||| ends(base, ".pem"@)
    ||| ends(base, ".key"@)
}

/// Names of documents and code, which often speak of secrets and hold none.
pub open spec fn document(base: Seq<char>) -> bool {
    ||| ends(base, ".png"@)
    ||| ends(base, ".jpg"@)
    ||| ends(base, ".jpeg"@)
    ||| ends(base, ".svg"@)
    ||| ends(base, ".md"@)
    ||| ends(base, ".mdx"@)
    ||| ends(base, ".yaml"@)
    ||| ends(base, ".yml"@)
    ||| ends(base, ".go"@)
    ||| ends(base, ".ts"@)
    ||| ends(base, ".py"@)
    ||| ends(base, ".html"@)
    ||| ends(base, ".txt"@)
}

/// Names that only look like those of secrets: dotfiles of environments, and
/// whatever speaks of an API token.
pub open spec fn secret_looking(base: Seq<char>) -> bool {
    ||| begins(base, "."@) && has_text(base, ".env"@)
    ||| has_text(base, "token"@) && has_text(base, "api"@)
}

/// Whether a path in lower case names a secret. Only the name of the file
/// counts, not the directories before it.
pub open spec fn lowered_hits(path: Seq<char>) -> bool {
    let base = after_last(path, '/');
    secret_file(base) || !document(base) && secret_looking(base)
}

/// Whether a path in lower case ends as those of key files do.
pub open spec fn key_ending(path: Seq<char>) -> bool {
    ends(path, ".pem"@) || ends(path, ".key"@)
}

/// Whether a path names a secret, in whatever case. Its ASCII letters are lowered
/// first and by themselves; what is left to lower are the other letters.
pub open spec fn name_hits(path: Seq<char>) -> bool {
    key_ending(ascii_lowered(path)) || lowered_hits(lowercase(ascii_lowered(path)))
}

/// Whether a path in lower case names a secret.
pub fn lowered_name_hits(path: &str) -> (r: bool)
    ensures
        r == lowered_hits(path@),
{
    let base = tail_after(&chars_of(path), '/');
    if same(&base, ".env") || same(&base, ".env.bak") || same(&base, ".sesskey") || same(
        &base,
        "credentials.json",
    ) || same(&base, "credentials.yml") || same(&base, "client_secret.json") || same(
        &base,
        "service-account.json",
    ) || same(&base, ".netrc") || starts_with(&base, "id_") || ends_with(&base, ".pem")
        || ends_with(&base, ".key") {
        return true;
    }
    if ends_with(&base, ".png") || ends_with(&base, ".jpg") || ends_with(&base, ".jpeg")
        || ends_with(&base, ".svg") || ends_with(&base, ".md") || ends_with(&base, ".mdx")
        || ends_with(&base, ".yaml") || ends_with(&base, ".yml") || ends_with(&base, ".go")
        || ends_with(&base, ".ts") || ends_with(&base, ".py") || ends_with(&base, ".html")
        || ends_with(&base, ".txt") {
        return false;
    }
    (starts_with(&base, ".") && contains(&base, ".env")) || (contains(&base, "token") && contains(
        &base,
        "api",
    ))
}

/// Whether a path names a secret, in whatever case.
pub fn name_hits_secret(name: &str) -> (r: bool)
    ensures
        r == name_hits(name@),
        is_ascii_chars(name@) ==> r == lowered_hits(ascii_lowered(name@)),
{
    let v = lower_ascii(&chars_of(name));
    if ends_with(&v, ".pem") || ends_with(&v, ".key") {
        proof {
            key_files_hit(v@);
        }
        return true;
    }
    let plain = text_of(&v);
    proof {
        assert(ascii_lowered(v@) =~= v@);
        if is_ascii_chars(name@) {
            assert(is_ascii_chars(v@)) by {
                assert forall|i: int| 0 <= i < v@.len() implies '\0' <= #[trigger] v@[i]
                    <= '\u{7f}' by {
                    assert('\0' <= name@[i] <= '\u{7f}');
                }
            }
        }
    }
    lowered_name_hits(plain.as_str().to_lowercase().as_str())
}

/// Whether a name in lower case is that of a secret value.
pub open spec fn secret_key(key: Seq<char>) -> bool {
    ||| has_text(key, "key"@)
    ||| has_text(key, "secret"@)
    ||| has_text(key, "password"@)
    ||| has_text(key, "token"@)
    ||| has_text(key, "credential"@)
}

/// Whether a value is long enough for a secret and no obvious placeholder.
pub open spec fn secret_value(value: Seq<char>) -> bool {
    &&& encode_utf8(value).len() >= 16
    &&& !begins(value, "${"@)
    &&& !begins(value, "<"@)
    &&& value != "changeme"@
    &&& value != "example"@
}

/// The name in an assignment.
pub open spec fn assigned_name(line: Seq<char>) -> Seq<char> {
    line.take(before(line, '=') as int)
}

/// The value in an assignment, without what quotes it.
pub open spec fn assigned_value(line: Seq<char>) -> Seq<char> {
    unquoted(unquoted(trimmed(line.skip(before(line, '=') as int + 1)), '"'), '\'')
}

/// Whether a line assigns something.
pub open spec fn is_assignment(line: Seq<char>) -> bool {
    before(line, '=') < line.len()
}

/// Whether a line assigns a secret.
pub open spec fn looks_secret(line: Seq<char>) -> bool {
    let l = trimmed(line);
    &&& is_assignment(l)
    &&& secret_key(lowercase(assigned_name(l)))
    &&& secret_value(assigned_value(l))
}

/// Whether an assignment of a value to a name in lower case is one of a secret.
pub fn assigns_secret(key: &str, value: &str) -> (r: bool)
    ensures
        r == (secret_key(key@) && secret_value(value@)),
{
    let k = chars_of(key);
    if contains(&k, "key") || contains(&k, "secret") || contains(&k, "password") || contains(
        &k,
        "token",
    ) || contains(&k, "credential") {
        let v = chars_of(value);
        byte_len(value) >= 16 && !starts_with(&v, "${") && !starts_with(&v, "<") && !same(
            &v,
            "changeme",
        ) && !same(&v, "example")
    } else {
        false
    }
}

/// Whether a line assigns a secret.
pub fn content_looks_secret(line: &str) -> (r: bool)
    ensures
        r == looks_secret(line@),
        is_ascii_chars(assigned_name(trimmed(line@))) ==> r == (is_assignment(trimmed(line@))
            && secret_key(ascii_lowered(assigned_name(trimmed(line@)))) && secret_value(
            assigned_value(trimmed(line@)),
        )),
{
    let l = trim(&chars_of(line));
    assert(l@.skip(0) =~= l@);
    let eq = find_from(&l, '=', 0);
    if eq == l.len() {
        return false;
    }
    let name = text_of(&cut(&l, 0, eq));
    assert(name@ =~= assigned_name(l@));
    let after = cut(&l, eq + 1, l.len());
    assert(after@ =~= l@.skip(eq + 1));
    let value = text_of(&unquote(&unquote(&trim(&after), '"'), '\''));
    assigns_secret(name.as_str().to_lowercase().as_str(), value.as_str())
}

/// Whether a line of a text assigns a secret.
pub open spec fn holds_secret(content: Seq<char>) -> bool {
    exists|i: int| 0 <= i < lines_of(content).len() && looks_secret(#[trigger] lines_of(content)[i])
}

/// Whether a line of a text assigns a secret.
pub fn content_holds_secret(content: &str) -> (r: bool)
    ensures
        r == holds_secret(content@),
{
    let all = lines(&chars_of(content));
    let mut i: usize = 0;
    while i < all.len()
        invariant
            i <= all@.len(),
            views(all@) == lines_of(content@),
            forall|k: int| 0 <= k < i ==> !looks_secret(#[trigger] lines_of(content@)[k]),
        decreases all@.len() - i,
    {
        assert(views(all@)[i as int] == all@[i as int]@);
        if content_looks_secret(text_of(&all[i]).as_str()) {
            return true;
        }
        i += 1;
    }
    assert(views(all@).len() == all@.len());
    false
}

/// The character that git writes as a backslash and a letter.
pub open spec fn escaped(letter: char) -> Option<char> {
    if letter == '"' || letter == '\\' {
        Some(letter)
    } else if letter == 'a' {
        Some('\x07')
    } else if letter == 'b' {
        Some('\x08')
    } else if letter == 't' {
        Some('\t')
    } else if letter == 'n' {
        Some('\n')
    } else if letter == 'v' {
        Some('\x0b')
    } else if letter == 'f' {
        Some('\x0c')
    } else if letter == 'r' {
        Some('\r')
    } else {
        None
    }
}

/// Whether three characters are the octal code of an ASCII character.
pub open spec fn is_octal(a: char, b: char, c: char) -> bool {
    '0' <= a <= '1' && '0' <= b <= '7' && '0' <= c <= '7'
}

/// The ASCII character with an octal code.
pub open spec fn octal(a: char, b: char, c: char) -> char {
    ((a as int - 48) * 64 + (b as int - 48) * 8 + (c as int - 48)) as char
}

/// What git wrote between two quotes, with its escapes undone; nothing where it
/// is no such text.
pub open spec fn unescaped(s: Seq<char>) -> Option<Seq<char>>
    decreases s.len(),
{
    if s.len() == 0 {
        Some(Seq::empty())
    } else if s[0] == '"' {
        None
    } else if s[0] != '\\' {
        after_char(s[0], unescaped(s.skip(1)))
    } else if s.len() >= 2 && escaped(s[1]) is Some {
        after_char(escaped(s[1])->0, unescaped(s.skip(2)))
    } else if s.len() >= 4 && is_octal(s[1], s[2], s[3]) {
        after_char(octal(s[1], s[2], s[3]), unescaped(s.skip(4)))
    } else {
        None
    }
}

/// A character and what follows it, if something does.
pub open spec fn after_char(c: char, rest: Option<Seq<char>>) -> Option<Seq<char>> {
    match rest {
        Some(t) => Some(seq![c] + t),
        None => None,
    }
}

/// A path as it is, from the way git writes it: git puts a path with spaces or
/// odd characters between quotes.
pub open spec fn plain_path(s: Seq<char>) -> Seq<char> {
    if s.len() >= 2 && s[0] == '"' && s.last() == '"' && unescaped(
        s.subrange(1, s.len() - 1),
    ) is Some {
        unescaped(s.subrange(1, s.len() - 1))->0
    } else {
        s
    }
}

/// Some text and what follows it, if something does.
spec fn after_text(done: Seq<char>, rest: Option<Seq<char>>) -> Option<Seq<char>> {
    match rest {
        Some(t) => Some(done + t),
        None => None,
    }
}

/// The character that git writes as a backslash and a letter.
fn escaped_char(letter: char) -> (r: Option<char>)
    ensures
        r == escaped(letter),
{
    if letter == '"' || letter == '\\' {
        Some(letter)
    } else if letter == 'a' {
        Some('\x07')
    } else if letter == 'b' {
        Some('\x08')
    } else if letter == 't' {
        Some('\t')
    } else if letter == 'n' {
        Some('\n')
    } else if letter == 'v' {
        Some('\x0b')
    } else if letter == 'f' {
        Some('\x0c')
    } else if letter == 'r' {
        Some('\r')
    } else {
        None
    }
}

/// The ASCII character with an octal code.
fn octal_char(a: char, b: char, c: char) -> (r: char)
    requires
        is_octal(a, b, c),
    ensures
        r == octal(a, b, c),
{
    ((a as u8 - 48) * 64 + (b as u8 - 48) * 8 + (c as u8 - 48)) as char
}

/// Undoes the escapes of what git wrote between two quotes.
fn unescape(v: &Vec<char>) -> (r: Option<Vec<char>>)
    ensures
        match r {
            Some(t) => unescaped(v@) == Some(t@),
            None => unescaped(v@) is None,
        },
{
    let mut out: Vec<char> = Vec::new();
    let mut i: usize = 0;
    proof {
        assert(v@.skip(0) =~= v@);
        if unescaped(v@) is Some {
            assert(out@ + unescaped(v@)->0 =~= unescaped(v@)->0);
        }
    }
    while i < v.len()
        invariant
            i <= v@.len(),
            unescaped(v@) == after_text(out@, unescaped(v@.skip(i as int))),
        decreases v@.len() - i,
    {
        let ghost done = out@;
        let ghost here = v@.skip(i as int);
        if v[i] == '"' {
            return None;
        }
        let mut c = v[i];
        let mut taken: usize = 1;
        if v[i] == '\\' {
            if v.len() - i < 2 {
                return None;
            }
            match escaped_char(v[i + 1]) {
                Some(e) => {
                    c = e;
                    taken = 2;
                },
                None => {
                    if v.len() - i < 4 || !('0' <= v[i + 1] && v[i + 1] <= '1' && '0' <= v[i + 2]
                        && v[i + 2] <= '7' && '0' <= v[i + 3] && v[i + 3] <= '7') {
                        return None;
                    }
                    c = octal_char(v[i + 1], v[i + 2], v[i + 3]);
                    taken = 4;
                },
            }
        }
        out.push(c);
        proof {
            let rest = unescaped(here.skip(taken as int));
            assert(here.skip(taken as int) =~= v@.skip(i + taken));
            assert(unescaped(here) == after_char(c, rest));
            if rest is Some {
                assert(done + (seq![c] + rest->0) =~= out@ + rest->0);
            }
        }
        i = i + taken;
    }
    assert(v@.skip(i as int) =~= Seq::<char>::empty());
    assert(out@ + Seq::<char>::empty() =~= out@);
    Some(out)
}

/// A path as it is, from the way git writes it.
pub fn read_path(v: &Vec<char>) -> (r: Vec<char>)
    ensures
        r@ == plain_path(v@),
{
    let n = v.len();
    if n >= 2 && v[0] == '"' && v[n - 1] == '"' {
        let inner = cut(v, 1, n - 1);
        assert(inner@ =~= v@.subrange(1, n - 1));
        if let Some(t) = unescape(&inner) {
            return t;
        }
    }
    let whole = cut(v, 0, n);
    assert(whole@ =~= v@);
    whole
}

/// The files that git tracks, one a line; none if git failed.
pub open spec fn tracked_files(files: Ran) -> Seq<Seq<char>> {
    match files.good() {
        Some(s) => lines_of(s).map_values(|l: Seq<char>| plain_path(l)),
        None => Seq::empty(),
    }
}

/// The path in a line of `git status --porcelain`: what follows two letters of
/// state and a space.
pub open spec fn status_path(line: Seq<char>) -> Seq<char> {
    match after_bytes(line, 3) {
        Some(rest) => plain_path(trimmed(rest)),
        None => Seq::empty(),
    }
}

/// The paths in some lines of `git status --porcelain`.
pub open spec fn status_paths(all: Seq<Seq<char>>) -> Seq<Seq<char>> {
    all.map_values(|l: Seq<char>| status_path(l)).filter(|p: Seq<char>| p.len() > 0)
}

/// The paths that git reports as changed; none if git failed.
pub open spec fn changed_files(status: Ran) -> Seq<Seq<char>> {
    match status.good() {
        Some(s) => status_paths(lines_of(s)),
        None => Seq::empty(),
    }
}

/// The changed files whose names say so that their contents are read.
pub open spec fn unnamed(files: Seq<Seq<char>>) -> Seq<Seq<char>> {
    files.filter(|p: Seq<char>| !name_hits(p))
}

/// The files that git tracks.
pub fn git_ls(files: &Ran) -> (r: Vec<String>)
    ensures
        texts(r@) == tracked_files(*files),
{
    let mut out: Vec<String> = Vec::new();
    assert(texts(out@) =~= Seq::<Seq<char>>::empty());
    let s = match files.output() {
        Some(s) => s,
        None => {
            return out;
        },
    };
    let all = lines(&chars_of(s));
    let ghost path = |l: Seq<char>| plain_path(l);
    let ghost seen = views(all@).map_values(path);
    let mut i: usize = 0;
    assert(seen.take(0) =~= Seq::<Seq<char>>::empty());
    while i < all.len()
        invariant
            i <= all@.len(),
            path == (|l: Seq<char>| plain_path(l)),
            seen == views(all@).map_values(path),
            texts(out@) == seen.take(i as int),
        decreases all@.len() - i,
    {
        let ghost done = texts(out@);
        out.push(text_of(&read_path(&all[i])));
        assert(texts(out@) =~= done.push(seen[i as int]));
        assert(seen.take(i + 1) =~= seen.take(i as int).push(seen[i as int]));
        i += 1;
    }
    assert(seen.take(i as int) =~= seen);
    out
}

/// The paths that git reports as changed.
pub fn git_status(status: &Ran) -> (r: Vec<String>)
    ensures
        texts(r@) == changed_files(*status),
{
    let mut out: Vec<String> = Vec::new();
    assert(texts(out@) =~= Seq::<Seq<char>>::empty());
    let s = match status.output() {
        Some(s) => s,
        None => {
            return out;
        },
    };
    let all = lines(&chars_of(s));
    let ghost path = |l: Seq<char>| status_path(l);
    let ghost full = |p: Seq<char>| p.len() > 0;
    let ghost seen = views(all@).map_values(path);
    let mut i: usize = 0;
    proof {
        reveal(Seq::filter);
        assert(seen.take(0).filter(full) =~= Seq::<Seq<char>>::empty());
    }
    while i < all.len()
        invariant
            i <= all@.len(),
            path == (|l: Seq<char>| status_path(l)),
            full == (|p: Seq<char>| p.len() > 0),
            seen == views(all@).map_values(path),
            texts(out@) == seen.take(i as int).filter(full),
        decreases all@.len() - i,
    {
        let ghost done = texts(out@);
        let p = match skip_bytes(&all[i], 3) {
            Some(rest) => read_path(&trim(&rest)),
            None => {
                let none: Vec<char> = Vec::new();
                none
            },
        };
        assert(p@ =~= status_path(all@[i as int]@));
        assert(seen[i as int] == p@);
        proof {
            reveal(Seq::filter);
            assert(seen.take(i + 1).drop_last() =~= seen.take(i as int));
        }
        if p.len() > 0 {
            out.push(text_of(&p));
            assert(texts(out@) =~= done.push(p@));
        }
        i += 1;
    }
    assert(seen.take(i as int) =~= seen);
    out
}

/// The changed files whose contents the scan reads.
pub fn files_to_read(status: &Ran) -> (r: Vec<String>)
    ensures
        texts(r@) == unnamed(changed_files(*status)),
{
    let all = git_status(status);
    let ghost p = |f: Seq<char>| !name_hits(f);
    let ghost seen = texts(all@);
    let mut out: Vec<String> = Vec::new();
    let mut i: usize = 0;
    proof {
        reveal(Seq::filter);
        assert(texts(out@) =~= seen.take(0).filter(p));
    }
    while i < all.len()
        invariant
            i <= all@.len(),
            p == (|f: Seq<char>| !name_hits(f)),
            seen == texts(all@),
            texts(out@) == seen.take(i as int).filter(p),
        decreases all@.len() - i,
    {
        let ghost done = texts(out@);
        proof {
            reveal(Seq::filter);
            assert(seen.take(i + 1).drop_last() =~= seen.take(i as int));
            assert(seen[i as int] == all@[i as int]@);
        }
        if !name_hits_secret(all[i].as_str()) {
            out.push(all[i].clone());
            assert(texts(out@) =~= done.push(all@[i as int]@));
        }
        i += 1;
    }
    assert(seen.take(i as int) =~= seen);
    out
}

/// What an optional content says.
pub open spec fn contents_of(v: Seq<Option<String>>) -> Seq<Option<Seq<char>>> {
    v.map_values(
        |c: Option<String>|
            match c {
                Some(s) => Some(s@),
                None => None,
            },
    )
}

/// The findings in tracked files, by name alone.
pub open spec fn tracked_findings(repo: Seq<char>, files: Seq<Seq<char>>) -> Seq<FindingView> {
    files.filter(|f: Seq<char>| name_hits(f)).map_values(
        |f: Seq<char>|
            FindingView { repo, file: f, reason: "tracked secret-like filename"@ },
    )
}

/// The findings in changed files: by name, or else by content. The contents are
/// those of the files whose names say in their order; one that is
/// missing could not be read.
pub open spec fn changed_findings(
    repo: Seq<char>,
    files: Seq<Seq<char>>,
    contents: Seq<Option<Seq<char>>>,
) -> Seq<FindingView>
    decreases files.len(),
{
    if files.len() == 0 {
        Seq::empty()
    } else if name_hits(files.first()) {
        seq![
            FindingView {
                repo,
                file: files.first(),
                reason: "untracked/modified secret-like filename"@,
            },
        ] + changed_findings(repo, files.drop_first(), contents)
    } else if contents.len() == 0 {
        changed_findings(repo, files.drop_first(), contents)
    } else {
        let here = match contents.first() {
            Some(c) => if holds_secret(c) {
                seq![
                    FindingView {
                        repo,
                        file: files.first(),
                        reason: "content looks like a secret assignment"@,
                    },
                ]
            } else {
                Seq::empty()
            },
            None => Seq::empty(),
        };
        here + changed_findings(repo, files.drop_first(), contents.drop_first())
    }
}

/// A finding.
fn finding(repo: &str, file: &str, reason: &str) -> (r: Finding)
    ensures
        r@ == (FindingView { repo: repo@, file: file@, reason: reason@ }),
{
    Finding { repo: repo.to_owned(), file: file.to_owned(), reason: reason.to_owned() }
}

/// The findings in a repository: the tracked files by name, then the changed
/// files by name or content. The contents are those of `files_to_read`, in its
/// order.
pub fn scan_repo(
    repo: &str,
    files: &Ran,
    status: &Ran,
    contents: &Vec<Option<String>>,
) -> (r: Vec<Finding>)
    ensures
        findings(r@) == tracked_findings(repo@, tracked_files(*files)) + changed_findings(
            repo@,
            changed_files(*status),
            contents_of(contents@),
        ),
{
    let mut out: Vec<Finding> = Vec::new();
    let listed = git_ls(files);
    let ghost seen = texts(listed@);
    let ghost p = |f: Seq<char>| name_hits(f);
    let ghost make = |f: Seq<char>|
        FindingView { repo: repo@, file: f, reason: "tracked secret-like filename"@ };
    let mut i: usize = 0;
    proof {
        reveal(Seq::filter);
        assert(findings(out@) =~= seen.take(0).filter(p).map_values(make));
    }
    while i < listed.len()
        invariant
            i <= listed@.len(),
            seen == texts(listed@),
            p == (|f: Seq<char>| name_hits(f)),
            make == (|f: Seq<char>|
                FindingView { repo: repo@, file: f, reason: "tracked secret-like filename"@ }),
            findings(out@) == seen.take(i as int).filter(p).map_values(make),
        decreases listed@.len() - i,
    {
        let ghost done = findings(out@);
        proof {
            reveal(Seq::filter);
            assert(seen.take(i + 1).drop_last() =~= seen.take(i as int));
            assert(seen[i as int] == listed@[i as int]@);
        }
        if name_hits_secret(listed[i].as_str()) {
            out.push(finding(repo, listed[i].as_str(), "tracked secret-like filename"));
            assert(findings(out@) =~= done.push(make(seen[i as int])));
            assert(seen.take(i + 1).filter(p).map_values(make) =~= done.push(
                make(seen[i as int]),
            ));
        }
        i += 1;
    }
    assert(seen.take(i as int) =~= seen);
    assert(findings(out@) == tracked_findings(repo@, seen));
    let ghost first = findings(out@);
    let changed = git_status(status);
    let ghost all = texts(changed@);
    let ghost cs = contents_of(contents@);
    let mut j: usize = 0;
    let mut c: usize = 0;
    assert(all.skip(0) =~= all);
    assert(cs.skip(0) =~= cs);
    while j < changed.len()
        invariant
            j <= changed@.len(),
            c <= contents@.len(),
            all == texts(changed@),
            cs == contents_of(contents@),
            findings(out@) + changed_findings(repo@, all.skip(j as int), cs.skip(c as int))
                == first + changed_findings(repo@, all, cs),
        decreases changed@.len() - j,
    {
        let ghost done = findings(out@);
        let f = changed[j].as_str();
        assert(all.skip(j as int).first() == f@);
        assert(all.skip(j as int).drop_first() =~= all.skip(j + 1));
        if name_hits_secret(f) {
            out.push(finding(repo, f, "untracked/modified secret-like filename"));
            assert(findings(out@) + changed_findings(repo@, all.skip(j + 1), cs.skip(c as int))
                =~= done + changed_findings(repo@, all.skip(j as int), cs.skip(c as int)));
        } else if c < contents.len() {
            assert(cs.skip(c as int).first() == cs[c as int]);
            assert(cs.skip(c as int).drop_first() =~= cs.skip(c + 1));
            if let Some(content) = &contents[c] {
                if content_holds_secret(content.as_str()) {
                    out.push(finding(repo, f, "content looks like a secret assignment"));
                }
            }
            assert(findings(out@) + changed_findings(repo@, all.skip(j + 1), cs.skip(c + 1))
                =~= done + changed_findings(repo@, all.skip(j as int), cs.skip(c as int)));
            c += 1;
        }
        j += 1;
    }
    assert(findings(out@) + changed_findings(repo@, all.skip(j as int), cs.skip(c as int))
        =~= findings(out@));
    out
}

/// The directories before a file's name do not matter.
pub proof fn directories_do_not_matter(dir: Seq<char>, base: Seq<char>)
    requires
        !base.contains('/'),
    ensures
        lowered_hits(dir + "/"@ + base) == lowered_hits(base),
{
    reveal_strlit("/");
    lemma_after_last(dir.push('/'), base);
    assert(dir.push('/') + base =~= dir + "/"@ + base);
    lemma_after_last(Seq::empty(), base);
    assert(Seq::<char>::empty() + base =~= base);
}

proof fn lemma_after_last(front: Seq<char>, base: Seq<char>)
    requires
        !base.contains('/'),
        front.len() == 0 || front.last() == '/',
    ensures
        after_last(front + base, '/') == base,
    decreases base.len(),
{
    if base.len() == 0 {
        assert(front + base =~= front);
        assert(after_last(front, '/') =~= base);
    } else {
        let rest = base.drop_last();
        assert(base[base.len() - 1] == base.last());
        assert(!rest.contains('/')) by {
            if rest.contains('/') {
                let k = choose|k: int| 0 <= k < rest.len() && rest[k] == '/';
                assert(base[k] == '/');
            }
        }
        lemma_after_last(front, rest);
        assert((front + base).drop_last() =~= front + rest);
        assert(base =~= rest.push(base.last()));
    }
}

/// What follows the last slash keeps what stands at the end, where that holds no
/// slash.
proof fn lemma_after_last_keeps_end(front: Seq<char>, end: Seq<char>)
    requires
        !end.contains('/'),
    ensures
        after_last(front + end, '/') == after_last(front, '/') + end,
    decreases end.len(),
{
    if end.len() == 0 {
        assert(front + end =~= front);
        assert(after_last(front, '/') + end =~= after_last(front, '/'));
    } else {
        let rest = end.drop_last();
        assert(end[end.len() - 1] == end.last());
        assert(!rest.contains('/')) by {
            if rest.contains('/') {
                let k = choose|k: int| 0 <= k < rest.len() && rest[k] == '/';
                assert(end[k] == '/');
            }
        }
        lemma_after_last_keeps_end(front, rest);
        assert((front + end).drop_last() =~= front + rest);
        assert((after_last(front, '/') + rest).push(end.last()) =~= after_last(front, '/') + end);
    }
}

/// Every path in lower case that ends in `.pem` or `.key` names a secret,
/// whatever stands before, directories included.
pub proof fn key_files_hit(path: Seq<char>)
    requires
        key_ending(path),
    ensures
        lowered_hits(path),
{
    reveal_strlit(".pem");
    reveal_strlit(".key");
    let end = if ends(path, ".pem"@) {
        ".pem"@
    } else {
        ".key"@
    };
    let front = path.take(path.len() - end.len());
    assert(path =~= front + end);
    assert(!end.contains('/'));
    lemma_after_last_keeps_end(front, end);
    let base = after_last(path, '/');
    assert(base.subrange(base.len() - end.len(), base.len() as int) =~= end);
    assert(ends(base, end));
}

/// With `.pem` or `.key` behind it, in any case, every path names a secret.
pub proof fn with_a_key_ending_any_path_hits(path: Seq<char>)
    ensures
        name_hits(path + ".pem"@),
        name_hits(path + ".key"@),
        name_hits(path + ".PEM"@),
        name_hits(path + ".KEY"@),
{
    reveal_strlit(".pem");
    reveal_strlit(".key");
    reveal_strlit(".PEM");
    reveal_strlit(".KEY");
    let n = path.len() as int;
    assert(ascii_lowered(path + ".pem"@).subrange(n, n + 4) =~= ".pem"@);
    assert(ascii_lowered(path + ".key"@).subrange(n, n + 4) =~= ".key"@);
    assert(ascii_lowered(path + ".PEM"@).subrange(n, n + 4) =~= ".pem"@);
    assert(ascii_lowered(path + ".KEY"@).subrange(n, n + 4) =~= ".key"@);
}

/// The case of ASCII letters does not matter to a name.
pub proof fn name_case_does_not_matter(path: Seq<char>)
    ensures
        name_hits(ascii_uppered(path)) == name_hits(path),
        name_hits(ascii_lowered(path)) == name_hits(path),
{
    assert(ascii_lowered(ascii_uppered(path)) =~= ascii_lowered(path));
    assert(ascii_lowered(ascii_lowered(path)) =~= ascii_lowered(path));
}

/// A path that git had no reason to quote is read as it stands, and one that it
/// quoted for its spaces alone is read without the quotes.
pub proof fn quotes_are_undone(path: Seq<char>)
    requires
        !path.contains('"'),
        !path.contains('\\'),
    ensures
        plain_path(path) == path,
        plain_path("\""@ + path + "\""@) == path,
{
    reveal_strlit("\"");
    let s = "\""@ + path + "\""@;
    assert(s.subrange(1, s.len() - 1) =~= path);
    lemma_nothing_escaped(path);
    if path.len() > 0 {
        assert(path[0] != '"') by {
            if path[0] == '"' {
                assert(path.contains('"'));
            }
        }
    }
}

proof fn lemma_nothing_escaped(s: Seq<char>)
    requires
        !s.contains('"'),
        !s.contains('\\'),
    ensures
        unescaped(s) == Some(s),
    decreases s.len(),
{
    if s.len() == 0 {
        assert(s =~= Seq::<char>::empty());
    } else {
        let rest = s.skip(1);
        assert(s.contains(s[0]));
        assert forall|c: char| rest.contains(c) implies s.contains(c) by {
            let k = choose|k: int| 0 <= k < rest.len() && rest[k] == c;
            assert(s[k + 1] == c);
        }
        lemma_nothing_escaped(rest);
        assert(seq![s[0]] + rest =~= s);
    }
}

/// A placeholder is no secret, nor is a value of fewer than 16 bytes.
pub proof fn placeholders_are_no_secrets(value: Seq<char>)
    requires
        begins(value, "${"@) || begins(value, "<"@) || encode_utf8(value).len() < 16,
    ensures
        !secret_value(value),
{
}

/// A tracked file is reported exactly if its name is that of a secret.
pub proof fn tracked_file_is_reported(repo: Seq<char>, files: Seq<Seq<char>>, file: Seq<char>)
    ensures
        tracked_findings(repo, files).contains(
            FindingView { repo, file, reason: "tracked secret-like filename"@ },
        ) <==> files.contains(file) && name_hits(file),
{
    let p = |f: Seq<char>| name_hits(f);
    let make = |f: Seq<char>|
        FindingView { repo, file: f, reason: "tracked secret-like filename"@ };
    let kept = files.filter(p);
    let all = tracked_findings(repo, files);
    broadcast use vstd::seq_lib::group_filter_ensures;

    if all.contains(make(file)) {
        let k = choose|k: int| 0 <= k < all.len() && all[k] == make(file);
        assert(kept[k] == file);
        crate::seqs::lemma_filter_within(files, p, k);
        assert(p(kept[k]));
    }
    if files.contains(file) && name_hits(file) {
        let j = choose|j: int| 0 <= j < files.len() && files[j] == file;
        assert(p(files[j]));
        assert(kept.contains(files[j]));
        let k = choose|k: int| 0 <= k < kept.len() && kept[k] == file;
        assert(all[k] == make(file));
    }
}

/// A changed file is reported by name exactly if its name is that of a secret,
/// whatever it holds.
pub proof fn changed_file_is_reported(
    repo: Seq<char>,
    files: Seq<Seq<char>>,
    contents: Seq<Option<Seq<char>>>,
    file: Seq<char>,
)
    ensures
        changed_findings(repo, files, contents).contains(
            FindingView { repo, file, reason: "untracked/modified secret-like filename"@ },
        ) <==> files.contains(file) && name_hits(file),
    decreases files.len(),
{
    reveal_strlit("untracked/modified secret-like filename");
    reveal_strlit("content looks like a secret assignment");
    let goal = FindingView { repo, file, reason: "untracked/modified secret-like filename"@ };
    let all = changed_findings(repo, files, contents);
    if files.len() > 0 {
        let f = files.first();
        let rest = files.drop_first();
        assert(files =~= seq![f] + rest);
        let here = if name_hits(f) {
            seq![
                FindingView { repo, file: f, reason: "untracked/modified secret-like filename"@ },
            ]
        } else if contents.len() > 0 && contents.first() is Some && holds_secret(
            contents.first()->0,
        ) {
            seq![
                FindingView { repo, file: f, reason: "content looks like a secret assignment"@ },
            ]
        } else {
            Seq::empty()
        };
        let left = if name_hits(f) || contents.len() == 0 {
            contents
        } else {
            contents.drop_first()
        };
        let after = changed_findings(repo, rest, left);
        assert(all =~= here + after);
        changed_file_is_reported(repo, rest, left, file);
        assert("untracked/modified secret-like filename"@.len()
            != "content looks like a secret assignment"@.len());
        if all.contains(goal) {
            let k = choose|k: int| 0 <= k < all.len() && all[k] == goal;
            if k < here.len() {
                assert(here[k] == goal);
                assert(files[0] == file);
            } else {
                assert(after[k - here.len()] == goal);
                let j = choose|j: int| 0 <= j < rest.len() && rest[j] == file;
                assert(files[j + 1] == file);
            }
        }
        if files.contains(file) && name_hits(file) {
            let j = choose|j: int| 0 <= j < files.len() && files[j] == file;
            if j == 0 {
                assert(all[0] == goal);
            } else {
                assert(rest[j - 1] == file);
                let k = choose|k: int| 0 <= k < after.len() && after[k] == goal;
                assert(all[here.len() + k] == goal);
            }
        }
    }
}

} // verus!
