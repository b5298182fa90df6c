//! Starting and stopping the memory service. Each is a machine: a state says
//! what is to be done next, and what came of it leads to the next state.

use vstd::prelude::*;
use crate::hindsight::API_URL;
use crate::text::{chars_of, contains, decimal, has_text, is_digit, push_decimal, texts};

verus! {

broadcast use vstd::string::group_string_axioms;

/// The program of the service.
pub const API_PROGRAM: &'static str = "/home/nayem/Projects/hindsight/.venv/bin/hindsight-api";

/// The directory of the service's programs.
pub const PROGRAM_DIR: &'static str = "/home/nayem/Projects/hindsight/.venv/bin";

/// The directory in which the service runs.
pub const SERVICE_DIR: &'static str = "/home/nayem/Projects/hindsight";

/// The file to which the service logs once it is detached.
pub const API_LOG: &'static str = "/tmp/hindsight-api.log";

/// How often a start waits for the service, a second each time.
pub const START_POLLS: u32 = 45;

/// How often a stop waits for the service, half a second each time.
pub const STOP_POLLS: u32 = 20;

/// What came of a task.
#[derive(Debug)]
pub enum Event {
    /// Whether the service answers the health query.
    Health(bool),
    /// Whether the program of the service is there.
    Program(bool),
    /// The program was run, or could not be, for a reason.
    Launched(Option<String>),
    /// The version that the service reports, if it does.
    Version(Option<String>),
    /// How many processes were told to end.
    Killed(usize),
}

/// What came of a task, by its texts.
pub enum EventView {
    Health(bool),
    Program(bool),
    Launched(Option<Seq<char>>),
    Version(Option<Seq<char>>),
    Killed(usize),
}

/// What an optional string holds.
pub open spec fn opt_text(s: Option<String>) -> Option<Seq<char>> {
    match s {
        Some(s) => Some(s@),
        None => None,
    }
}

impl View for Event {
    type V = EventView;

    open spec fn view(&self) -> EventView {
        match self {
            Event::Health(b) => EventView::Health(*b),
            Event::Program(b) => EventView::Program(*b),
            Event::Launched(e) => EventView::Launched(opt_text(*e)),
            Event::Version(v) => EventView::Version(opt_text(*v)),
            Event::Killed(n) => EventView::Killed(*n),
        }
    }
}

/// A start in progress, by what is to be done next.
#[derive(Debug)]
pub enum Starting {
    /// Ask whether the service is up already.
    Probe,
    /// See whether its program is there.
    Locate,
    /// Run the program.
    Launch,
    /// Wait a second, and ask whether the service is up; so many waits are over.
    Wait(u32),
    /// Ask for the version.
    AskVersion,
    /// Over; this is what is said of it.
    Done(String),
}

/// A start in progress, by its texts.
pub enum StartingView {
    Probe,
    Locate,
    Launch,
    Wait(u32),
    AskVersion,
    Done(Seq<char>),
}

impl View for Starting {
    type V = StartingView;

    open spec fn view(&self) -> StartingView {
        match self {
            Starting::Probe => StartingView::Probe,
            Starting::Locate => StartingView::Locate,
            Starting::Launch => StartingView::Launch,
            Starting::Wait(n) => StartingView::Wait(*n),
            Starting::AskVersion => StartingView::AskVersion,
            Starting::Done(s) => StartingView::Done(s@),
        }
    }
}

/// Where an event takes a start. An event that does not answer the task of the
/// state leaves it as it is.
pub open spec fn start_step(s: StartingView, e: EventView) -> StartingView {
    match (s, e) {
        (StartingView::Probe, EventView::Health(up)) => if up {
            StartingView::Done("hindsight-api already running"@)
        } else {
            StartingView::Locate
        },
        (StartingView::Locate, EventView::Program(there)) => if there {
            StartingView::Launch
        } else {
            StartingView::Done("hindsight-api not found at "@ + API_PROGRAM@)
        },
        (StartingView::Launch, EventView::Launched(error)) => match error {
            None => StartingView::Wait(0),
            Some(error) => StartingView::Done("failed to launch hindsight-api: "@ + error),
        },
        (StartingView::Wait(n), EventView::Health(up)) => if up {
            StartingView::AskVersion
        } else if n + 1 < START_POLLS {
            StartingView::Wait((n + 1) as u32)
        } else {
            StartingView::Done("launched but not responding after 45s; check "@ + API_LOG@)
        },
        (StartingView::AskVersion, EventView::Version(v)) => StartingView::Done(
            "started — listening on "@ + API_URL@ + " (v"@ + (match v {
                Some(v) => v,
                None => Seq::empty(),
            }) + "); log: "@ + API_LOG@,
        ),
        _ => s,
    }
}

/// Goes on with a start.
pub fn start(state: Starting, event: &Event) -> (r: Starting)
    ensures
        r@ == start_step(state@, event@),
{
    match (state, event) {
        (Starting::Probe, Event::Health(up)) => if *up {
            Starting::Done("hindsight-api already running".to_owned())
        } else {
            Starting::Locate
        },
        (Starting::Locate, Event::Program(there)) => if *there {
            Starting::Launch
        } else {
            let mut out = "hindsight-api not found at ".to_owned();
            out.append(API_PROGRAM);
            Starting::Done(out)
        },
        (Starting::Launch, Event::Launched(error)) => match error {
            None => Starting::Wait(0),
            Some(error) => {
                let mut out = "failed to launch hindsight-api: ".to_owned();
                out.append(error.as_str());
                Starting::Done(out)
            },
        },
        (Starting::Wait(n), Event::Health(up)) => if *up {
            Starting::AskVersion
        } else if n < START_POLLS - 1 {
            Starting::Wait(n + 1)
        } else {
            let mut out = "launched but not responding after 45s; check ".to_owned();
            out.append(API_LOG);
            Starting::Done(out)
        },
        (Starting::AskVersion, Event::Version(v)) => {
            let mut out = "started — listening on ".to_owned();
            out.append(API_URL);
            out.append(" (v");
            if let Some(v) = v {
                out.append(v.as_str());
            }
            out.append("); log: ");
            out.append(API_LOG);
            let ghost version = match opt_text(*v) {
                Some(v) => v,
                None => Seq::empty(),
            };
            assert(out@ =~= "started — listening on "@ + API_URL@ + " (v"@ + version
                + "); log: "@ + API_LOG@);
            Starting::Done(out)
        },
        (state, _) => state,
    }
}

/// A stop in progress, by what is to be done next.
#[derive(Debug)]
pub enum Stopping {
    /// Ask whether the service is up at all.
    Probe,
    /// Tell the processes of the service to end.
    Kill,
    /// Wait half a second, and ask whether the service is up; so many processes
    /// were told to end, and so many waits are over.
    Wait(usize, u32),
    /// Over; this is what is said of it.
    Done(String),
}

/// A stop in progress, by its texts.
pub enum StoppingView {
    Probe,
    Kill,
    Wait(usize, u32),
    Done(Seq<char>),
}

impl View for Stopping {
    type V = StoppingView;

    open spec fn view(&self) -> StoppingView {
        match self {
            Stopping::Probe => StoppingView::Probe,
            Stopping::Kill => StoppingView::Kill,
            Stopping::Wait(k, n) => StoppingView::Wait(*k, *n),
            Stopping::Done(s) => StoppingView::Done(s@),
        }
    }
}

/// Where an event takes a stop. An event that does not answer the task of the
/// state leaves it as it is.
pub open spec fn stop_step(s: StoppingView, e: EventView) -> StoppingView {
    match (s, e) {
        (StoppingView::Probe, EventView::Health(up)) => if up {
            StoppingView::Kill
        } else {
            StoppingView::Done("hindsight-api not running"@)
        },
        (StoppingView::Kill, EventView::Killed(n)) => if n > 0 {
            StoppingView::Wait(n, 0)
        } else {
            StoppingView::Done("could not find hindsight-api process to stop"@)
        },
        (StoppingView::Wait(killed, n), EventView::Health(up)) => if !up {
            StoppingView::Done("stopped ("@ + decimal(killed as nat) + " process killed)"@)
        } else if n + 1 < STOP_POLLS {
            StoppingView::Wait(killed, (n + 1) as u32)
        } else {
            StoppingView::Done(
                "sent stop signal but API still responding; may need manual kill"@,
            )
        },
        _ => s,
    }
}

/// Goes on with a stop.
pub fn stop(state: Stopping, event: &Event) -> (r: Stopping)
    ensures
        r@ == stop_step(state@, event@),
{
    match (state, event) {
        (Stopping::Probe, Event::Health(up)) => if *up {
            Stopping::Kill
        } else {
            Stopping::Done("hindsight-api not running".to_owned())
        },
        (Stopping::Kill, Event::Killed(n)) => if *n > 0 {
            Stopping::Wait(*n, 0)
        } else {
            Stopping::Done("could not find hindsight-api process to stop".to_owned())
        },
        (Stopping::Wait(killed, n), Event::Health(up)) => if !*up {
            let mut out = "stopped (".to_owned();
            push_decimal(&mut out, killed as u64);
            out.append(" process killed)");
            Stopping::Done(out)
        } else if n < STOP_POLLS - 1 {
            Stopping::Wait(killed, n + 1)
        } else {
            Stopping::Done(
                "sent stop signal but API still responding; may need manual kill".to_owned(),
            )
        },
        (state, _) => state,
    }
}

/// A process: its name below `/proc`, and the command line of it.
#[derive(Debug)]
pub struct Process {
    pub name: String,
    pub cmdline: String,
}

/// Whether a name below `/proc` is that of a process: it is made of digits.
pub open spec fn process_name(name: Seq<char>) -> bool {
    forall|i: int| 0 <= i < name.len() ==> is_digit(#[trigger] name[i])
}

/// A command line with spaces for the zero characters that part its words.
pub open spec fn spaced(cmdline: Seq<char>) -> Seq<char> {
    cmdline.map_values(
        |c: char|
            if c == '\0' {
                ' '
            } else {
                c
            },
    )
}

/// Whether a process is one of the service: its command line names the program.
pub open spec fn of_service(p: Process) -> bool {
    process_name(p.name@) && has_text(spaced(p.cmdline@), API_PROGRAM@)
}

/// The processes that a stop ends.
pub open spec fn victims(all: Seq<Process>) -> Seq<Seq<char>> {
    all.filter(|p: Process| of_service(p)).map_values(|p: Process| p.name@)
}

/// Whether a name below `/proc` is that of a process.
pub fn is_pid(name: &str) -> (r: bool)
    ensures
        r == process_name(name@),
{
    let v = chars_of(name);
    let mut i: usize = 0;
    while i < v.len()
        invariant
            i <= v@.len(),
            v@ == name@,
            forall|k: int| 0 <= k < i ==> is_digit(#[trigger] v@[k]),
        decreases v@.len() - i,
    {
        if v[i] < '0' || '9' < v[i] {
            assert(!is_digit(name@[i as int]));
            return false;
        }
        i += 1;
    }
    true
}

/// A command line with spaces for the zero characters that part its words.
fn with_spaces(v: &Vec<char>) -> (r: Vec<char>)
    ensures
        r@ == spaced(v@),
{
    let mut out: Vec<char> = Vec::new();
    let mut i: usize = 0;
    while i < v.len()
        invariant
            i <= v@.len(),
            out@ == spaced(v@.take(i as int)),
        decreases v@.len() - i,
    {
        let c = if v[i] == '\0' {
            ' '
        } else {
            v[i]
        };
        out.push(c);
        assert(out@ =~= spaced(v@.take(i + 1)));
        i += 1;
    }
    assert(v@.take(i as int) =~= v@);
    out
}

/// The processes to end, of all that run.
pub fn stop_targets(all: &Vec<Process>) -> (r: Vec<String>)
    ensures
        texts(r@) == victims(all@),
{
    let ghost p = |p: Process| of_service(p);
    let ghost name = |p: Process| p.name@;
    let mut out: Vec<String> = Vec::new();
    let mut i: usize = 0;
    proof {
        reveal(Seq::filter);
        assert(texts(out@) =~= all@.take(0).filter(p).map_values(name));
    }
    while i < all.len()
        invariant
            i <= all@.len(),
            p == (|p: Process| of_service(p)),
            name == (|p: Process| p.name@),
            texts(out@) == all@.take(i as int).filter(p).map_values(name),
        decreases all@.len() - i,
    {
        let ghost done = texts(out@);
        proof {
            reveal(Seq::filter);
            assert(all@.take(i + 1).drop_last() =~= all@.take(i as int));
        }
        if is_pid(all[i].name.as_str()) && contains(
            &with_spaces(&chars_of(all[i].cmdline.as_str())),
            API_PROGRAM,
        ) {
            out.push(all[i].name.clone());
            assert(texts(out@) =~= done.push(all@[i as int].name@));
            assert(all@.take(i + 1).filter(p).map_values(name) =~= done.push(
                all@[i as int].name@,
            ));
        }
        i += 1;
    }
    assert(all@.take(i as int) =~= all@);
    out
}

/// Whether an event answers the task of a start.
pub open spec fn answers_start(s: StartingView, e: EventView) -> bool {
    match s {
        StartingView::Probe => e is Health,
        StartingView::Locate => e is Program,
        StartingView::Launch => e is Launched,
        StartingView::Wait(_) => e is Health,
        StartingView::AskVersion => e is Version,
        StartingView::Done(_) => false,
    }
}

/// How many tasks a start has before it at most.
pub open spec fn start_rank(s: StartingView) -> int {
    match s {
        StartingView::Probe => START_POLLS + 4,
        StartingView::Locate => START_POLLS + 3,
        StartingView::Launch => START_POLLS + 2,
        StartingView::Wait(n) => if n < START_POLLS {
            START_POLLS + 1 - n
        } else {
            2
        },
        StartingView::AskVersion => 1,
        StartingView::Done(_) => 0,
    }
}

/// Each answer brings a start nearer to its end, so that it ends.
pub proof fn start_ends(s: StartingView, e: EventView)
    requires
        answers_start(s, e),
    ensures
        0 <= start_rank(start_step(s, e)) < start_rank(s),
{
}

/// A start runs the program only where the service was found down and the
/// program there.
pub proof fn start_launches_only_when_down(s: StartingView, e: EventView)
    requires
        start_step(s, e) is Launch,
        !(s is Launch),
    ensures
        s is Locate && e == EventView::Program(true),
{
}

/// A start looks for the program only where the service was found down.
pub proof fn start_goes_on_only_when_down(s: StartingView, e: EventView)
    requires
        s is Probe,
        !(start_step(s, e) is Probe),
    ensures
        start_step(s, e) is Locate <==> e == EventView::Health(false),
{
}

/// Whether an event answers the task of a stop.
pub open spec fn answers_stop(s: StoppingView, e: EventView) -> bool {
    match s {
        StoppingView::Probe => e is Health,
        StoppingView::Kill => e is Killed,
        StoppingView::Wait(_, _) => e is Health,
        StoppingView::Done(_) => false,
    }
}

/// How many tasks a stop has before it at most.
pub open spec fn stop_rank(s: StoppingView) -> int {
    match s {
        StoppingView::Probe => STOP_POLLS + 2,
        StoppingView::Kill => STOP_POLLS + 1,
        StoppingView::Wait(_, n) => if n < STOP_POLLS {
            STOP_POLLS - n
        } else {
            1
        },
        StoppingView::Done(_) => 0,
    }
}

/// Each answer brings a stop nearer to its end, so that it ends.
pub proof fn stop_ends(s: StoppingView, e: EventView)
    requires
        answers_stop(s, e),
    ensures
        0 <= stop_rank(stop_step(s, e)) < stop_rank(s),
{
}

/// A stop ends exactly the processes of the service: a name is taken exactly if
/// it is that of a process whose command line names the program.
pub proof fn stop_ends_only_the_service(all: Seq<Process>, name: Seq<char>)
    ensures
        victims(all).contains(name) <==> exists|p: Process|
            #![trigger of_service(p)]
            all.contains(p) && of_service(p) && p.name@ == name,
{
    let test = |p: Process| of_service(p);
    let named = |p: Process| p.name@;
    let kept = all.filter(test);
    broadcast use vstd::seq_lib::group_filter_ensures;

    if victims(all).contains(name) {
        let k = choose|k: int| 0 <= k < kept.len() && kept.map_values(named)[k] == name;
        crate::seqs::lemma_filter_within(all, test, k);
        assert(test(kept[k]));
        assert(of_service(kept[k]));
    }
    if exists|p: Process|
        #![trigger of_service(p)]
        all.contains(p) && of_service(p) && p.name@ == name {
        let p = choose|p: Process|
            #![trigger of_service(p)]
            all.contains(p) && of_service(p) && p.name@ == name;
        let j = choose|j: int| 0 <= j < all.len() && all[j] == p;
        assert(test(all[j]));
        assert(kept.contains(all[j]));
        let k = choose|k: int| 0 <= k < kept.len() && kept[k] == p;
        assert(kept.map_values(named)[k] == name);
    }
}

} // verus!
