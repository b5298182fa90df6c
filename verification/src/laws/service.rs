//! Laws of the service, of the backups and of the clock.

use vstd::prelude::*;
use crate::backup::{backup_said, snapshot};
use crate::clock::{clock_face, offset_of};
use crate::command::Ran;
use crate::laws::text::{each, trims_the_space_around, trims_to_nothing, two_digits_write_numbers};
use crate::service::{
    of_service, start_step, stop_step, victims, EventView, Process, StartingView, StoppingView,
};
use crate::text::{decimal, digits_value, has_text, is_digit, is_space, two_digits};

verus! {

broadcast use vstd::string::group_string_axioms;

/// A service that answers needs no start and is not launched; one that answers
/// after any wait is asked for its version; and one that does not is waited for
/// forty-five times.
pub proof fn starts_follow_the_answers(n: u32, why: Seq<char>, v: Seq<char>)
    ensures
        start_step(StartingView::Probe, EventView::Health(true)) == StartingView::Done(
            "hindsight-api already running"@,
        ),
        start_step(StartingView::Probe, EventView::Health(false)) == StartingView::Locate,
        start_step(StartingView::Locate, EventView::Program(true)) == StartingView::Launch,
        start_step(StartingView::Launch, EventView::Launched(None)) == StartingView::Wait(0),
        start_step(StartingView::Launch, EventView::Launched(Some(why))) == StartingView::Done(
            "failed to launch hindsight-api: "@ + why,
        ),
        start_step(StartingView::Wait(n), EventView::Health(true)) == StartingView::AskVersion,
        n < 44 ==> start_step(StartingView::Wait(n), EventView::Health(false))
            == StartingView::Wait((n + 1) as u32),
        n >= 44 ==> start_step(StartingView::Wait(n), EventView::Health(false)) is Done,
        start_step(StartingView::AskVersion, EventView::Version(Some(v))) is Done,
        has_text(
            start_step(StartingView::AskVersion, EventView::Version(Some(v)))->Done_0,
            " (v"@ + v + ")"@,
        ),
{
    let s = start_step(StartingView::AskVersion, EventView::Version(Some(v)))->Done_0;
    reveal_strlit(")");
    reveal_strlit("); log: ");
    let a = "started — listening on "@ + crate::hindsight::API_URL@;
    let b = "); log: "@.skip(1) + crate::service::API_LOG@;
    assert("); log: "@ =~= ")"@ + "); log: "@.skip(1));
    assert(s =~= a + (" (v"@ + v + ")"@) + b);
    crate::laws::text::between_is_found(a, " (v"@ + v + ")"@, b);
}

/// A service that does not answer is not stopped; one that answers has its
/// processes ended; and the end says how many they were, once it is gone, however
/// many and after any wait up to the twentieth.
pub proof fn stops_follow_the_answers(k: usize, n: u32)
    ensures
        stop_step(StoppingView::Probe, EventView::Health(false)) == StoppingView::Done(
            "hindsight-api not running"@,
        ),
        stop_step(StoppingView::Probe, EventView::Health(true)) == StoppingView::Kill,
        k > 0 ==> stop_step(StoppingView::Kill, EventView::Killed(k)) == StoppingView::Wait(k, 0),
        stop_step(StoppingView::Kill, EventView::Killed(0)) == StoppingView::Done(
            "could not find hindsight-api process to stop"@,
        ),
        stop_step(StoppingView::Wait(k, n), EventView::Health(false)) == StoppingView::Done(
            "stopped ("@ + decimal(k as nat) + " process killed)"@,
        ),
        n < 19 ==> stop_step(StoppingView::Wait(k, n), EventView::Health(true))
            == StoppingView::Wait(k, (n + 1) as u32),
        n >= 19 ==> stop_step(StoppingView::Wait(k, n), EventView::Health(true))
            == StoppingView::Done(
            "sent stop signal but API still responding; may need manual kill"@,
        ),
{
}

/// A process is judged by itself: it is ended exactly if its name is all digits
/// and its command line, with spaces for the zero characters, holds the path of
/// the program.
pub proof fn processes_are_judged_one_by_one(
    a: Seq<Process>,
    b: Seq<Process>,
    p: Process,
    line: Seq<char>,
)
    requires
        line.len() == p.cmdline@.len(),
        forall|i: int|
            0 <= i < line.len() ==> #[trigger] line[i] == (if p.cmdline@[i] == '\0' {
                ' '
            } else {
                p.cmdline@[i]
            }),
    ensures
        victims(a + b) == victims(a) + victims(b),
        each(p.name@, |c: char| is_digit(c)) && has_text(
            line,
            "/home/nayem/Projects/hindsight/.venv/bin/hindsight-api"@,
        ) ==> victims(seq![p]) == seq![p.name@],
        !each(p.name@, |c: char| is_digit(c)) ==> victims(seq![p]).len() == 0,
        !has_text(line, "/home/nayem/Projects/hindsight/.venv/bin/hindsight-api"@) ==> victims(
            seq![p],
        ).len() == 0,
{
    let q = |p: Process| of_service(p);
    let name = |p: Process| p.name@;
    Seq::filter_distributes_over_add(a, b, q);
    assert((a.filter(q) + b.filter(q)).map_values(name) =~= a.filter(q).map_values(name)
        + b.filter(q).map_values(name));
    crate::seqs::lemma_filter_one(p, q);
    assert(crate::service::spaced(p.cmdline@) =~= line);
    assert(each(p.name@, |c: char| is_digit(c)) == crate::service::process_name(p.name@)) by {
        if each(p.name@, |c: char| is_digit(c)) {
            assert forall|i: int| 0 <= i < p.name@.len() implies is_digit(#[trigger] p.name@[i]) by {
                assert((|c: char| is_digit(c))(p.name@[i]));
            }
        }
    }
    if of_service(p) {
        assert(seq![p].map_values(name) =~= seq![name(p)]);
    } else {
        assert(Seq::<Process>::empty().map_values(name) =~= Seq::<Seq<char>>::empty());
    }
}

/// What the backup wrote is shown whole, its output and then its errors, if it is
/// more than white space.
pub proof fn backups_show_all_that_was_written(
    success: bool,
    stdout: String,
    stderr: String,
    why: String,
)
    ensures
        !each(stdout@ + stderr@, |c: char| is_space(c)) ==> backup_said(
            Ran::Done { success, stdout, stderr },
        ) == stdout@ + stderr@,
        each(stdout@ + stderr@, |c: char| is_space(c)) ==> backup_said(
            Ran::Done { success, stdout, stderr },
        ) == "done (no output)"@,
        backup_said(Ran::Failed(why)) == "failed to run backup.sh: "@ + why@,
{
    trims_to_nothing(stdout@ + stderr@);
}

/// The list of the backups is shown without the white space around it, whether or
/// not the command succeeded.
pub proof fn backup_lists_are_shown(
    a: Seq<char>,
    text: Seq<char>,
    b: Seq<char>,
    success: bool,
    stdout: String,
    stderr: String,
    why: String,
)
    requires
        each(a, |c: char| is_space(c)),
        each(b, |c: char| is_space(c)),
        text.len() > 0 ==> !is_space(text[0]) && !is_space(text[text.len() - 1]),
        stdout@ == a + text + b,
    ensures
        snapshot(Ran::Done { success, stdout, stderr }) == text,
        snapshot(Ran::Failed(why)) == "(backup dir unreadable)"@,
{
    trims_the_space_around(a, text, b);
}

/// The clock shows hours below twenty-four, minutes and seconds, each in two
/// digits with colons between, that make up the second of the day.
pub proof fn the_clock_shows_the_second(second: nat)
    requires
        second < 86400,
    ensures
        clock_face(second).len() == 8,
        clock_face(second)[2] == ':',
        clock_face(second)[5] == ':',
        digits_value(clock_face(second).subrange(0, 2)) * 3600 + digits_value(
            clock_face(second).subrange(3, 5),
        ) * 60 + digits_value(clock_face(second).subrange(6, 8)) == second,
        digits_value(clock_face(second).subrange(0, 2)) < 24,
        digits_value(clock_face(second).subrange(3, 5)) < 60,
        digits_value(clock_face(second).subrange(6, 8)) < 60,
{
    reveal_strlit(":");
    let x = clock_face(second);
    let h = second / 3600;
    let m = second / 60 % 60;
    let s = second % 60;
    assert(x.subrange(0, 2) =~= two_digits(h));
    assert(x.subrange(3, 5) =~= two_digits(m));
    assert(x.subrange(6, 8) =~= two_digits(s));
    two_digits_write_numbers(h);
    two_digits_write_numbers(m);
    two_digits_write_numbers(s);
    assert(second / 60 == h * 60 + m);
}

/// Clocks to the east are ahead by the hours and minutes of the offset; clocks to
/// the west are as much behind, so that the two offsets together make full days.
pub proof fn offsets_are_hours_and_minutes(h: nat, m: nat)
    requires
        h < 100,
        m < 100,
    ensures
        offset_of(seq!['+'] + two_digits(h) + two_digits(m)) == h * 3600 + m * 60,
        0 <= offset_of(seq!['-'] + two_digits(h) + two_digits(m)) < 86400,
        (offset_of(seq!['+'] + two_digits(h) + two_digits(m)) + offset_of(
            seq!['-'] + two_digits(h) + two_digits(m),
        )) % 86400 == 0,
{
    two_digits_write_numbers(h);
    two_digits_write_numbers(m);
    let e = seq!['+'] + two_digits(h) + two_digits(m);
    let w = seq!['-'] + two_digits(h) + two_digits(m);
    assert(e[1] == two_digits(h)[0] && e[2] == two_digits(h)[1]);
    assert(e[3] == two_digits(m)[0] && e[4] == two_digits(m)[1]);
    assert(w[1] == two_digits(h)[0] && w[2] == two_digits(h)[1]);
    assert(w[3] == two_digits(m)[0] && w[4] == two_digits(m)[1]);
    assert(e.subrange(1, 3) =~= two_digits(h));
    assert(e.subrange(3, 5) =~= two_digits(m));
    assert(w.subrange(1, 3) =~= two_digits(h));
    assert(w.subrange(3, 5) =~= two_digits(m));
}

/// A text that is no sign and four digits is no offset, and the clocks are those of
/// Greenwich.
pub proof fn other_texts_are_no_offset(s: Seq<char>)
    requires
        s.len() != 5 || (s[0] != '+' && s[0] != '-') || exists|i: int|
            1 <= i < 5 && !is_digit(#[trigger] s[i]),
    ensures
        offset_of(s) == 0,
{
}

} // verus!
