//! Laws of secrets.

use vstd::prelude::*;
use vstd::utf8::{encode_utf8, is_ascii_chars};
use crate::command::Ran;
use crate::laws::text::{
    ascii_takes_a_byte_each, beginnings_and_ends, between_is_found, counts_up_to_the_first, each,
    each_line_is_found, keeps_what_follows_the_last, lines_come_one_by_one, quotes_around_go,
    trims_the_space_around,
};
use crate::secrets::{
    changed_files, changed_findings, holds_secret, looks_secret, lowered_hits, name_hits, octal,
    plain_path, secret_key, secret_value, status_path, tracked_files, tracked_findings, unescaped, unnamed,
    FindingView,
};
use crate::text::{after_last, begins, ends, has_text, is_space, lines_of, lowercase};

verus! {

broadcast use vstd::string::group_string_axioms;

/// A name is that of a secret value if any of five words stands in it, whatever
/// stands around the word.
pub proof fn five_words_name_secrets(a: Seq<char>, b: Seq<char>)
    ensures
        secret_key(a + "key"@ + b),
        secret_key(a + "secret"@ + b),
        secret_key(a + "password"@ + b),
        secret_key(a + "token"@ + b),
        secret_key(a + "credential"@ + b),
{
    between_is_found(a, "key"@, b);
    between_is_found(a, "secret"@, b);
    between_is_found(a, "password"@, b);
    between_is_found(a, "token"@, b);
    between_is_found(a, "credential"@, b);
}

/// A name in which none of the five words stands is not that of a secret value.
pub proof fn no_other_words_name_secrets(name: Seq<char>)
    requires
        !has_text(name, "key"@),
        !has_text(name, "secret"@),
        !has_text(name, "password"@),
        !has_text(name, "token"@),
        !has_text(name, "credential"@),
    ensures
        !secret_key(name),
{
}

/// Whether a value begins as placeholders do.
pub open spec fn is_placeholder(value: Seq<char>) -> bool {
    ||| value.len() >= 1 && value[0] == '<'
    ||| value.len() >= 2 && value[0] == '$' && value[1] == '{'
}

/// A value of sixteen bytes or more is a secret, however long it is, unless it
/// begins as placeholders do; and a shorter value is none.
pub proof fn long_values_are_secrets(value: Seq<char>)
    ensures
        encode_utf8(value).len() >= 16 && !is_placeholder(value) ==> secret_value(value),
        encode_utf8(value).len() < 16 ==> !secret_value(value),
        is_placeholder(value) ==> !secret_value(value),
{
    reveal_strlit("${");
    reveal_strlit("<");
    reveal_strlit("changeme");
    reveal_strlit("example");
    vstd::utf8::is_ascii_chars_encode_utf8("changeme"@);
    vstd::utf8::is_ascii_chars_encode_utf8("example"@);
    if begins(value, "${"@) {
        assert(value.subrange(0, 2)[0] == '$' && value.subrange(0, 2)[1] == '{');
    }
    if begins(value, "<"@) {
        assert(value.subrange(0, 1)[0] == '<');
    }
    if value.len() >= 2 && value[0] == '$' && value[1] == '{' {
        assert(value.subrange(0, 2) =~= "${"@);
    }
    if value.len() >= 1 && value[0] == '<' {
        assert(value.subrange(0, 1) =~= "<"@);
    }
}

/// A secret stays one when it gets longer.
pub proof fn longer_values_stay_secrets(value: Seq<char>, more: Seq<char>)
    requires
        secret_value(value),
    ensures
        secret_value(value + more),
{
    long_values_are_secrets(value);
    lemma_longer_takes_more(value, more);
    long_values_are_secrets(value + more);
    assert(encode_utf8(value).len() >= 16);
    assert(value.len() > 0) by {
        if value.len() == 0 {
            assert(value =~= Seq::<char>::empty());
            vstd::utf8::is_ascii_chars_encode_utf8(value);
        }
    }
    assert((value + more)[0] == value[0]);
    if value.len() >= 2 {
        assert((value + more)[1] == value[1]);
    } else if (value + more).len() >= 2 && value[0] == '$' {
        assert(is_ascii_chars(value));
        vstd::utf8::is_ascii_chars_encode_utf8(value);
    }
}

proof fn lemma_longer_takes_more(a: Seq<char>, b: Seq<char>)
    ensures
        encode_utf8(a + b).len() >= encode_utf8(a).len(),
    decreases a.len(),
{
    if a.len() == 0 {
        vstd::utf8::is_ascii_chars_encode_utf8(a);
    } else {
        reveal_with_fuel(encode_utf8, 2);
        assert((a + b).drop_first() =~= a.drop_first() + b);
        assert((a + b)[0] == a[0]);
        lemma_longer_takes_more(a.drop_first(), b);
    }
}

/// Whether a text may stand bare on the right of an assignment: something stands
/// in it, and neither white space nor a quote stands at its ends.
pub open spec fn is_bare(s: Seq<char>) -> bool {
    &&& s.len() > 0
    &&& !is_space(s[0]) && s[0] != '"' && s[0] != '\''
    &&& !is_space(s[s.len() - 1]) && s[s.len() - 1] != '"' && s[s.len() - 1] != '\''
}

/// An assignment of a value to a name is reported exactly if the name, in lower
/// case, is that of a secret and the value is one. Quotes around the value and
/// white space around the line change nothing.
pub proof fn assignments_are_judged_by_name_and_value(
    name: Seq<char>,
    value: Seq<char>,
    a: Seq<char>,
    b: Seq<char>,
)
    requires
        name.len() > 0,
        !is_space(name[0]),
        !name.contains('='),
        is_bare(value),
        each(a, |c: char| is_space(c)),
        each(b, |c: char| is_space(c)),
    ensures
        looks_secret(name + seq!['='] + value) == (secret_key(lowercase(name)) && secret_value(
            value,
        )),
        looks_secret(name + seq!['=', '"'] + value + seq!['"']) == (secret_key(lowercase(name))
            && secret_value(value)),
        looks_secret(name + seq!['=', '\''] + value + seq!['\'']) == (secret_key(lowercase(name))
            && secret_value(value)),
        looks_secret(a + (name + seq!['='] + value) + b) == (secret_key(lowercase(name))
            && secret_value(value)),
{
    let none = Seq::<char>::empty();
    let dq = seq!['"'];
    let sq = seq!['\''];
    let line = name + seq!['='] + value;
    trims_the_space_around(a, line, b);
    trims_the_space_around(none, value, none);
    counts_up_to_the_first(name, '=', value);
    assert(line.take(name.len() as int) =~= name);
    assert(line.skip(name.len() as int + 1) =~= value);
    quotes_around_go(none, value, none, '"');
    quotes_around_go(none, value, none, '\'');
    let v2 = dq + value + dq;
    let l2 = name + seq!['='] + v2;
    assert(l2 =~= name + seq!['=', '"'] + value + seq!['"']);
    trims_the_space_around(none, l2, none);
    trims_the_space_around(none, v2, none);
    counts_up_to_the_first(name, '=', v2);
    assert(l2.take(name.len() as int) =~= name);
    assert(l2.skip(name.len() as int + 1) =~= v2);
    quotes_around_go(dq, value, dq, '"');
    let v3 = sq + value + sq;
    let l3 = name + seq!['='] + v3;
    assert(l3 =~= name + seq!['=', '\''] + value + seq!['\'']);
    trims_the_space_around(none, l3, none);
    trims_the_space_around(none, v3, none);
    counts_up_to_the_first(name, '=', v3);
    assert(l3.take(name.len() as int) =~= name);
    assert(l3.skip(name.len() as int + 1) =~= v3);
    quotes_around_go(none, v3, none, '"');
    quotes_around_go(sq, value, sq, '\'');
}

/// Every assignment to a name with one of the five words, of a bare value of
/// sixteen bytes or more that is no placeholder, is reported.
pub proof fn every_secret_assignment_is_reported(name: Seq<char>, value: Seq<char>)
    requires
        name.len() > 0,
        !is_space(name[0]),
        !name.contains('='),
        is_bare(value),
        has_text(lowercase(name), "key"@) || has_text(lowercase(name), "secret"@) || has_text(
            lowercase(name),
            "password"@,
        ) || has_text(lowercase(name), "token"@) || has_text(lowercase(name), "credential"@),
        encode_utf8(value).len() >= 16,
        !is_placeholder(value),
    ensures
        looks_secret(name + seq!['='] + value),
{
    let none = Seq::<char>::empty();
    assignments_are_judged_by_name_and_value(name, value, none, none);
    long_values_are_secrets(value);
}

/// An assignment that is reported is reported with a longer value too.
pub proof fn longer_assignments_stay_reported(
    name: Seq<char>,
    value: Seq<char>,
    more: Seq<char>,
)
    requires
        name.len() > 0,
        !is_space(name[0]),
        !name.contains('='),
        is_bare(value),
        is_bare(value + more),
        looks_secret(name + seq!['='] + value),
    ensures
        looks_secret(name + seq!['='] + (value + more)),
{
    let none = Seq::<char>::empty();
    assignments_are_judged_by_name_and_value(name, value, none, none);
    longer_values_stay_secrets(value, more);
    assignments_are_judged_by_name_and_value(name, value + more, none, none);
}

/// A line without an equals sign assigns nothing.
pub proof fn without_equals_nothing_is_reported(line: Seq<char>)
    requires
        line.len() > 0 ==> !is_space(line[0]) && !is_space(line[line.len() - 1]),
        !line.contains('='),
    ensures
        !looks_secret(line),
{
    let none = Seq::<char>::empty();
    trims_the_space_around(none, line, none);
    counts_up_to_the_first(line, '=', none);
}

/// A text holds a secret wherever a line of it is one, however many lines stand
/// around it; and it holds none if no line is one.
pub proof fn every_line_is_looked_at(a: Seq<char>, line: Seq<char>, rest: Seq<char>)
    requires
        a.len() == 0 || a[a.len() - 1] == '\n',
        !line.contains('\n'),
        line.len() == 0 || line[line.len() - 1] != '\r',
        looks_secret(line),
        line.len() > 0,
    ensures
        holds_secret(a + line + seq!['\n'] + rest),
        holds_secret(a + line),
{
    each_line_is_found(a, line, rest);
    let x = lines_of(a + line + seq!['\n'] + rest);
    let i = choose|i: int| 0 <= i < x.len() && x[i] == line;
    assert(looks_secret(x[i]));
    let y = lines_of(a + line);
    let j = choose|j: int| 0 <= j < y.len() && y[j] == line;
    assert(looks_secret(y[j]));
}

/// The first line and the rest of a text hold between them what the text holds.
pub proof fn texts_hold_what_their_lines_hold(line: Seq<char>, rest: Seq<char>)
    requires
        !line.contains('\n'),
        line.len() == 0 || line[line.len() - 1] != '\r',
    ensures
        holds_secret(line + seq!['\n'] + rest) <==> looks_secret(line) || holds_secret(rest),
        !holds_secret(Seq::<char>::empty()),
{
    lines_come_one_by_one(line, rest);
    let all = lines_of(line + seq!['\n'] + rest);
    let more = lines_of(rest);
    assert(all == seq![line] + more);
    if looks_secret(line) {
        assert(looks_secret(all[0]));
    }
    if holds_secret(rest) {
        let k = choose|k: int| 0 <= k < more.len() && looks_secret(#[trigger] more[k]);
        assert(looks_secret(all[k + 1]));
    }
    if holds_secret(line + seq!['\n'] + rest) {
        let k = choose|k: int| 0 <= k < all.len() && looks_secret(#[trigger] all[k]);
        if k > 0 {
            assert(looks_secret(more[k - 1]));
        }
    }
}

/// Whether a text is the part of a path before a file's name.
pub open spec fn is_dir_part(dir: Seq<char>) -> bool {
    dir.len() == 0 || dir[dir.len() - 1] == '/'
}

proof fn lemma_base(dir: Seq<char>, base: Seq<char>)
    requires
        is_dir_part(dir),
        !base.contains('/'),
    ensures
        after_last(dir + base, '/') == base,
{
    if dir.len() == 0 {
        keeps_what_follows_the_last(dir, '/', base);
        assert(dir + base =~= base);
    } else {
        let front = dir.drop_last();
        keeps_what_follows_the_last(front, '/', base);
        assert(front + seq!['/'] + base =~= dir + base);
    }
}

/// In any directory, these names are those of secrets, and so is whatever begins
/// with `id_`.
pub proof fn some_names_are_always_secrets(dir: Seq<char>, more: Seq<char>)
    requires
        is_dir_part(dir),
        !more.contains('/'),
    ensures
        lowered_hits(dir + ".env"@),
        lowered_hits(dir + ".env.bak"@),
        lowered_hits(dir + ".sesskey"@),
        lowered_hits(dir + "credentials.json"@),
        lowered_hits(dir + "credentials.yml"@),
        lowered_hits(dir + "client_secret.json"@),
        lowered_hits(dir + "service-account.json"@),
        lowered_hits(dir + ".netrc"@),
        lowered_hits(dir + ("id_"@ + more)),
        lowered_hits(dir + (more + ".pem"@)),
        lowered_hits(dir + (more + ".key"@)),
{
    reveal_strlit(".env");
    reveal_strlit(".env.bak");
    reveal_strlit(".sesskey");
    reveal_strlit("credentials.json");
    reveal_strlit("credentials.yml");
    reveal_strlit("client_secret.json");
    reveal_strlit("service-account.json");
    reveal_strlit(".netrc");
    reveal_strlit("id_");
    reveal_strlit(".pem");
    reveal_strlit(".key");
    lemma_base(dir, ".env"@);
    lemma_base(dir, ".env.bak"@);
    lemma_base(dir, ".sesskey"@);
    lemma_base(dir, "credentials.json"@);
    lemma_base(dir, "credentials.yml"@);
    lemma_base(dir, "client_secret.json"@);
    lemma_base(dir, "service-account.json"@);
    lemma_base(dir, ".netrc"@);
    lemma_no_slash("id_"@, more);
    lemma_no_slash(more, ".pem"@);
    lemma_no_slash(more, ".key"@);
    lemma_base(dir, "id_"@ + more);
    lemma_base(dir, more + ".pem"@);
    lemma_base(dir, more + ".key"@);
    beginnings_and_ends("id_"@ + more, "id_"@);
    beginnings_and_ends(more + ".pem"@, ".pem"@);
    beginnings_and_ends(more + ".key"@, ".key"@);
}

proof fn lemma_no_slash(a: Seq<char>, b: Seq<char>)
    requires
        !a.contains('/'),
        !b.contains('/'),
    ensures
        !(a + b).contains('/'),
{
    if (a + b).contains('/') {
        let k = choose|k: int| 0 <= k < (a + b).len() && (a + b)[k] == '/';
        if k < a.len() {
            assert(a[k] == '/');
        } else {
            assert(b[k - a.len()] == '/');
        }
    }
}

/// Whether a name ends as those of documents, pictures and code do.
pub open spec fn reads_as_document(base: Seq<char>) -> bool {
    ||| ends(base, ".png"@) || ends(base, ".jpg"@) || ends(base, ".jpeg"@) || ends(base, ".svg"@)
    ||| ends(base, ".md"@) || ends(base, ".mdx"@) || ends(base, ".yaml"@) || ends(base, ".yml"@)
    ||| ends(base, ".go"@) || ends(base, ".ts"@) || ends(base, ".py"@) || ends(base, ".html"@)
    ||| ends(base, ".txt"@)
}

/// A dotfile in whose name `.env` stands is a secret, and so is a file in whose
/// name both `token` and `api` stand, unless it is a document.
pub proof fn some_names_look_like_secrets(dir: Seq<char>, base: Seq<char>)
    requires
        is_dir_part(dir),
        !base.contains('/'),
        !reads_as_document(base),
        (base.len() > 0 && base[0] == '.' && has_text(base, ".env"@)) || (has_text(base, "token"@)
            && has_text(base, "api"@)),
    ensures
        lowered_hits(dir + base),
{
    reveal_strlit(".");
    lemma_base(dir, base);
    if base.len() > 0 && base[0] == '.' {
        assert(base.subrange(0, 1) =~= "."@);
    }
}

/// No other name is that of a secret: one that hits is among the exact names,
/// begins with `id_`, ends in `.pem` or `.key`, or is no document and looks like
/// a secret.
pub proof fn no_other_names_are_secrets(dir: Seq<char>, base: Seq<char>)
    requires
        is_dir_part(dir),
        !base.contains('/'),
        lowered_hits(dir + base),
        base != ".env"@,
        base != ".env.bak"@,
        base != ".sesskey"@,
        base != "credentials.json"@,
        base != "credentials.yml"@,
        base != "client_secret.json"@,
        base != "service-account.json"@,
        base != ".netrc"@,
        !begins(base, "id_"@),
        !ends(base, ".pem"@),
        !ends(base, ".key"@),
    ensures
        !reads_as_document(base),
        (base.len() > 0 && base[0] == '.' && has_text(base, ".env"@)) || (has_text(base, "token"@)
            && has_text(base, "api"@)),
{
    reveal_strlit(".");
    lemma_base(dir, base);
    if begins(base, "."@) {
        assert(base.subrange(0, 1)[0] == '.');
    }
}

/// The findings in tracked files are those in some of them and those in the
/// others; and of one file there is a finding exactly if its name hits.
pub proof fn tracked_files_are_judged_one_by_one(
    repo: Seq<char>,
    a: Seq<Seq<char>>,
    b: Seq<Seq<char>>,
    f: Seq<char>,
)
    ensures
        tracked_findings(repo, a + b) == tracked_findings(repo, a) + tracked_findings(repo, b),
        name_hits(f) ==> tracked_findings(repo, seq![f]) == seq![
            FindingView { repo, file: f, reason: "tracked secret-like filename"@ },
        ],
        !name_hits(f) ==> tracked_findings(repo, seq![f]).len() == 0,
{
    let p = |f: Seq<char>| name_hits(f);
    let make = |f: Seq<char>|
        FindingView { repo, file: f, reason: "tracked secret-like filename"@ };
    Seq::filter_distributes_over_add(a, b, p);
    assert((a.filter(p) + b.filter(p)).map_values(make) =~= a.filter(p).map_values(make)
        + b.filter(p).map_values(make));
    crate::seqs::lemma_filter_one(f, p);
    if name_hits(f) {
        assert(seq![f].map_values(make) =~= seq![make(f)]);
    } else {
        assert(Seq::<Seq<char>>::empty().map_values(make) =~= Seq::<FindingView>::empty());
    }
}

/// Of the changed files whose names say nothing, each is reported whose content
/// holds a secret.
pub proof fn contents_that_hold_secrets_are_reported(
    repo: Seq<char>,
    files: Seq<Seq<char>>,
    contents: Seq<Option<Seq<char>>>,
    k: int,
)
    requires
        contents.len() == unnamed(files).len(),
        0 <= k < contents.len(),
        contents[k] is Some,
        holds_secret(contents[k]->0),
    ensures
        changed_findings(repo, files, contents).contains(
            FindingView {
                repo,
                file: unnamed(files)[k],
                reason: "content looks like a secret assignment"@,
            },
        ),
    decreases files.len(),
{
    let p = |f: Seq<char>| !name_hits(f);
    reveal(Seq::filter);
    let f = files.first();
    let rest = files.drop_first();
    crate::seqs::lemma_filter_first(files, p);
    let all = changed_findings(repo, files, contents);
    let goal = FindingView {
        repo,
        file: unnamed(files)[k],
        reason: "content looks like a secret assignment"@,
    };
    if name_hits(f) {
        contents_that_hold_secrets_are_reported(repo, rest, contents, k);
        let after = changed_findings(repo, rest, contents);
        let j = choose|j: int| 0 <= j < after.len() && after[j] == goal;
        assert(all[j + 1] == goal);
    } else if k == 0 {
        assert(unnamed(files)[0] == f);
        assert(all[0] == goal);
    } else {
        let left = contents.drop_first();
        assert(unnamed(files)[k] == unnamed(rest)[k - 1]);
        contents_that_hold_secrets_are_reported(repo, rest, left, k - 1);
        let after = changed_findings(repo, rest, left);
        let j = choose|j: int| 0 <= j < after.len() && after[j] == goal;
        assert(all[all.len() - after.len() + j] == goal);
    }
}

/// A file is reported for its content only if that holds a secret.
pub proof fn only_contents_that_hold_secrets_are_reported(
    repo: Seq<char>,
    files: Seq<Seq<char>>,
    contents: Seq<Option<Seq<char>>>,
    file: Seq<char>,
)
    requires
        contents.len() == unnamed(files).len(),
        changed_findings(repo, files, contents).contains(
            FindingView { repo, file, reason: "content looks like a secret assignment"@ },
        ),
    ensures
        exists|k: int|
            #![trigger contents[k]]
            0 <= k < contents.len() && unnamed(files)[k] == file && contents[k] is Some
                && holds_secret(contents[k]->0),
    decreases files.len(),
{
    reveal_strlit("untracked/modified secret-like filename");
    reveal_strlit("content looks like a secret assignment");
    let p = |f: Seq<char>| !name_hits(f);
    reveal(Seq::filter);
    let goal = FindingView { repo, file, reason: "content looks like a secret assignment"@ };
    let all = changed_findings(repo, files, contents);
    let j = choose|j: int| 0 <= j < all.len() && all[j] == goal;
    let f = files.first();
    let rest = files.drop_first();
    crate::seqs::lemma_filter_first(files, p);
    assert("untracked/modified secret-like filename"@.len()
        != "content looks like a secret assignment"@.len());
    if name_hits(f) {
        let after = changed_findings(repo, rest, contents);
        assert(j > 0);
        assert(after[j - 1] == goal);
        only_contents_that_hold_secrets_are_reported(repo, rest, contents, file);
    } else {
        let left = contents.drop_first();
        let after = changed_findings(repo, rest, left);
        let here = all.len() - after.len();
        assert(unnamed(files) =~= seq![f] + unnamed(rest));
        if j < here {
            assert(contents[0] is Some && holds_secret(contents[0]->0));
            assert(unnamed(files)[0] == file);
        } else {
            assert(after[j - here] == goal);
            only_contents_that_hold_secrets_are_reported(repo, rest, left, file);
            let k = choose|k: int|
                #![trigger left[k]]
                0 <= k < left.len() && unnamed(rest)[k] == file && left[k] is Some && holds_secret(
                    left[k]->0,
                );
            assert(contents[k + 1] == left[k]);
            assert(unnamed(files)[k + 1] == file);
        }
    }
}

/// In a line of the status, the path stands behind two letters and a space.
pub proof fn status_lines_name_paths(x: char, y: char, path: Seq<char>)
    requires
        x < '\u{80}',
        y < '\u{80}',
        path.len() > 0,
        !is_space(path[0]),
        !is_space(path[path.len() - 1]),
        !path.contains('"'),
        !path.contains('\\'),
    ensures
        status_path(seq![x, y, ' '] + path) == path,
        status_path(seq![x, y, ' ', '"'] + path + seq!['"']) == path,
{
    let head = seq![x, y, ' '];
    ascii_takes_a_byte_each(head, path);
    let none = Seq::<char>::empty();
    trims_the_space_around(none, path, none);
    crate::secrets::quotes_are_undone(path);
    reveal_strlit("\"");
    let quoted = "\""@ + path + "\""@;
    assert(seq![x, y, ' ', '"'] + path + seq!['"'] =~= head + quoted);
    ascii_takes_a_byte_each(head, quoted);
    trims_the_space_around(none, quoted, none);
}

/// Each line that git writes of tracked files is a file, the first line the first
/// of them.
pub proof fn tracked_files_are_lines(
    line: Seq<char>,
    rest: Seq<char>,
    now: String,
    later: String,
    stderr: String,
)
    requires
        !line.contains('\n'),
        !line.contains('\r'),
        !line.contains('"'),
        !line.contains('\\'),
        now@ == line + seq!['\n'] + rest,
        later@ == rest,
    ensures
        tracked_files(Ran::Done { success: true, stdout: now, stderr }) == seq![line]
            + tracked_files(Ran::Done { success: true, stdout: later, stderr }),
        tracked_files(Ran::Done { success: false, stdout: now, stderr }).len() == 0,
{
    if line.len() > 0 {
        assert(line.contains(line[line.len() - 1]));
    }
    lines_come_one_by_one(line, rest);
    crate::secrets::quotes_are_undone(line);
    let path = |l: Seq<char>| plain_path(l);
    assert((seq![line] + lines_of(rest)).map_values(path) =~= seq![line] + lines_of(
        rest,
    ).map_values(path));
}

/// Each line of the status is a changed file, the first line the first of them.
pub proof fn changed_files_are_lines(
    x: char,
    y: char,
    path: Seq<char>,
    rest: Seq<char>,
    now: String,
    later: String,
    stderr: String,
)
    requires
        x < '\u{80}',
        y < '\u{80}',
        x != '\n',
        y != '\n',
        path.len() > 0,
        !is_space(path[0]),
        !is_space(path[path.len() - 1]),
        !path.contains('"'),
        !path.contains('\\'),
        !path.contains('\n'),
        now@ == seq![x, y, ' '] + path + seq!['\n'] + rest,
        later@ == rest,
    ensures
        changed_files(Ran::Done { success: true, stdout: now, stderr }) == seq![path]
            + changed_files(Ran::Done { success: true, stdout: later, stderr }),
        changed_files(Ran::Done { success: false, stdout: now, stderr }).len() == 0,
{
    let line = seq![x, y, ' '] + path;
    assert(!line.contains('\n')) by {
        if line.contains('\n') {
            let k = choose|k: int| 0 <= k < line.len() && line[k] == '\n';
            if k >= 3 {
                assert(path[k - 3] == '\n');
            }
        }
    }
    assert(line[line.len() - 1] == path[path.len() - 1]);
    assert(is_space('\r'));
    lines_come_one_by_one(line, rest);
    status_lines_name_paths(x, y, path);
    let of = |l: Seq<char>| status_path(l);
    let full = |p: Seq<char>| p.len() > 0;
    assert((seq![line] + lines_of(rest)).map_values(of) =~= seq![path] + lines_of(rest).map_values(
        of,
    ));
    Seq::filter_distributes_over_add(seq![path], lines_of(rest).map_values(of), full);
    crate::seqs::lemma_filter_one(path, full);
}

/// How git writes a character between quotes: some by a letter of their own, the
/// other control characters by their octal code, the rest as they are.
pub open spec fn as_git_writes(c: char) -> Seq<char> {
    if c == '"' {
        seq!['\\', '"']
    } else if c == '\\' {
        seq!['\\', '\\']
    } else if c == '\x07' {
        seq!['\\', 'a']
    } else if c == '\x08' {
        seq!['\\', 'b']
    } else if c == '\t' {
        seq!['\\', 't']
    } else if c == '\n' {
        seq!['\\', 'n']
    } else if c == '\x0b' {
        seq!['\\', 'v']
    } else if c == '\x0c' {
        seq!['\\', 'f']
    } else if c == '\r' {
        seq!['\\', 'r']
    } else if (c as u32) < 32 || c as u32 == 127 {
        seq![
            '\\',
            (48 + (c as u32) / 64) as char,
            (48 + (c as u32) / 8 % 8) as char,
            (48 + (c as u32) % 8) as char,
        ]
    } else {
        seq![c]
    }
}

/// How git writes a path between quotes.
pub open spec fn path_as_git_writes(path: Seq<char>) -> Seq<char>
    decreases path.len(),
{
    if path.len() == 0 {
        Seq::empty()
    } else {
        as_git_writes(path[0]) + path_as_git_writes(path.skip(1))
    }
}

/// Whatever path git writes between quotes is read back.
pub proof fn written_paths_are_read_back(path: Seq<char>)
    ensures
        plain_path(seq!['"'] + path_as_git_writes(path) + seq!['"']) == path,
{
    let w = path_as_git_writes(path);
    let s = seq!['"'] + w + seq!['"'];
    assert(s.subrange(1, s.len() - 1) =~= w);
    escapes_are_undone(path);
}

proof fn code_of(c: char)
    ensures
        c as int == c as u32,
        (c as int) as char == c,
{
}

proof fn escapes_are_undone(path: Seq<char>)
    ensures
        unescaped(path_as_git_writes(path)) == Some(path),
    decreases path.len(),
{
    if path.len() == 0 {
        assert(path =~= Seq::<char>::empty());
    } else {
        let c = path[0];
        let e = as_git_writes(c);
        let rest = path_as_git_writes(path.skip(1));
        let s = path_as_git_writes(path);
        assert(s == e + rest);
        escapes_are_undone(path.skip(1));
        assert(seq![c] + path.skip(1) =~= path);
        assert(s.skip(e.len() as int) =~= rest);
        assert(s[0] == e[0]);
        if e.len() >= 2 {
            assert(s[1] == e[1]);
        }
        if e.len() == 4 {
            assert(s[2] == e[2] && s[3] == e[3]);
            let n = c as u32;
            assert(n < 32 || n == 127);
            assert(n == n / 64 * 64 + n / 8 % 8 * 8 + n % 8);
            assert(e[1] as u32 == 48 + n / 64);
            assert(e[2] as u32 == 48 + n / 8 % 8);
            assert(e[3] as u32 == 48 + n % 8);
            code_of(e[1]);
            code_of(e[2]);
            code_of(e[3]);
            code_of(c);
            let sum = (e[1] as int - 48) * 64 + (e[2] as int - 48) * 8 + (e[3] as int - 48);
            assert(sum == c as int);
            assert((c as int) as char == c);
            assert(octal(e[1], e[2], e[3]) == c);
        }
    }
}

/// A changed file is judged by itself: by its name or else by its content, and
/// reported at most once; one whose content could not be read is not reported.
pub proof fn changed_files_are_judged_one_by_one(
    repo: Seq<char>,
    file: Seq<char>,
    content: Option<Seq<char>>,
)
    ensures
        name_hits(file) ==> changed_findings(repo, seq![file], Seq::empty()) == seq![
            FindingView { repo, file, reason: "untracked/modified secret-like filename"@ },
        ],
        !name_hits(file) && content is Some && holds_secret(content->0) ==> changed_findings(
            repo,
            seq![file],
            seq![content],
        ) == seq![FindingView { repo, file, reason: "content looks like a secret assignment"@ }],
        !name_hits(file) && content is Some && !holds_secret(content->0) ==> changed_findings(
            repo,
            seq![file],
            seq![content],
        ).len() == 0,
        !name_hits(file) ==> changed_findings(repo, seq![file], seq![None]).len() == 0,
        name_hits(file) ==> unnamed(seq![file]).len() == 0,
        !name_hits(file) ==> unnamed(seq![file]) == seq![file],
{
    reveal_with_fuel(changed_findings, 2);
    assert(seq![file].drop_first() =~= Seq::<Seq<char>>::empty());
    crate::seqs::lemma_filter_one(file, |f: Seq<char>| !name_hits(f));
}

/// The findings in changed files are those in the first ones and those in the rest,
/// each with its own contents.
pub proof fn changed_findings_add_up(
    repo: Seq<char>,
    a: Seq<Seq<char>>,
    in_a: Seq<Option<Seq<char>>>,
    b: Seq<Seq<char>>,
    in_b: Seq<Option<Seq<char>>>,
)
    requires
        in_a.len() == unnamed(a).len(),
    ensures
        changed_findings(repo, a + b, in_a + in_b) == changed_findings(repo, a, in_a)
            + changed_findings(repo, b, in_b),
        unnamed(a + b) == unnamed(a) + unnamed(b),
    decreases a.len(),
{
    let p = |f: Seq<char>| !name_hits(f);
    Seq::filter_distributes_over_add(a, b, p);
    if a.len() == 0 {
        reveal(Seq::filter);
        assert(a + b =~= b);
        assert(in_a + in_b =~= in_b);
        assert(changed_findings(repo, a, in_a) + changed_findings(repo, b, in_b)
            =~= changed_findings(repo, b, in_b));
    } else {
        let rest = a.drop_first();
        assert((a + b).first() == a.first());
        assert((a + b).drop_first() =~= rest + b);
        crate::seqs::lemma_filter_first(a, p);
        if name_hits(a.first()) {
            changed_findings_add_up(repo, rest, in_a, b, in_b);
        } else {
            assert(in_a.len() > 0);
            assert((in_a + in_b).first() == in_a.first());
            assert((in_a + in_b).drop_first() =~= in_a.drop_first() + in_b);
            changed_findings_add_up(repo, rest, in_a.drop_first(), b, in_b);
        }
        assert(changed_findings(repo, a + b, in_a + in_b) =~= changed_findings(repo, a, in_a)
            + changed_findings(repo, b, in_b));
    }
}

} // verus!
