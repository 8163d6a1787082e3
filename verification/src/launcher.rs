//! Sandbox launcher: the verified core of one relaunch.
//!
//! A launch runs in five steps. The caller (unverified process-level code)
//! locates the running test binary; [`relative_to_root`] and
//! [`sandbox_binary_path`] relocate it to its in-container path;
//! [`Test::invocation_args`] composes the full container invocation;
//! the caller executes it and captures its output; [`Test::relay_output`]
//! decodes every captured line and extracts exactly the target test's
//! captured output, which the caller prints; and the caller acts on the
//! child's exit status as [`crate::guard::follow_up`] directs.

use vstd::prelude::*;
use vstd::string::*;
use crate::event::{Event, EventV, is_terminal_phase, spec_is_terminal_phase};
use crate::parser::{parse_line, spec_parse_line};
use crate::text::str_eq;

verus! {

/// The identity of the one test a launch isolates and observes.
pub struct Test {
    pub name: String,
}

/// A line of the captured stream was malformed. The index is the position
/// of the first such line; everything before it decoded cleanly.
#[derive(Debug, Clone, Copy, PartialEq, Eq, Structural)]
pub struct StreamError {
    pub line_index: usize,
}

/// Every line of the stream lies inside the event grammar.
pub open spec fn spec_all_lines_parse(lines: Seq<Seq<char>>) -> bool {
    forall|i: int| 0 <= i < lines.len() ==> spec_parse_line(lines[i]) is Some
}

/// The events a fully well-formed stream denotes, line by line.
pub open spec fn spec_stream_events(lines: Seq<Seq<char>>) -> Seq<EventV> {
    Seq::new(lines.len(), |i: int| spec_parse_line(lines[i]).unwrap())
}

/// A terminal test event for the target name.
pub open spec fn spec_matches_target(e: EventV, name: Seq<char>) -> bool {
    match e {
        EventV::Test { phase, name: n, stdout } => n == name && spec_is_terminal_phase(phase),
        EventV::Suite { .. } => false,
    }
}

/// The position of the first terminal test event for `name` at or after
/// `i`, if any.
pub open spec fn spec_first_match(events: Seq<EventV>, name: Seq<char>, i: int) -> Option<int>
    decreases events.len() - i,
{
    if i < 0 || i >= events.len() {
        None
    } else if spec_matches_target(events[i], name) {
        Some(i)
    } else {
        spec_first_match(events, name, i + 1)
    }
}

/// The captured output an event carries, defaulting to empty.
pub open spec fn spec_stdout_or_empty(e: EventV) -> Seq<char> {
    match e {
        EventV::Test { stdout: Some(t), .. } => t,
        _ => Seq::empty(),
    }
}

/// The only text attributable to the target test: the captured output of
/// the first terminal test event carrying its name, empty if that event
/// carries none or no such event exists.
pub open spec fn spec_selected_output(events: Seq<EventV>, name: Seq<char>) -> Seq<char> {
    match spec_first_match(events, name, 0) {
        None => Seq::empty(),
        Some(i) => spec_stdout_or_empty(events[i]),
    }
}

/// Decode every line of a captured stream, in order, failing on the first
/// malformed line: a malformed line is fatal, never skipped.
pub fn parse_stream(lines: &Vec<String>) -> (r: Result<Vec<Event>, StreamError>)
    ensures
        match r {
            Ok(events) => {
                &&& spec_all_lines_parse(lines.deep_view())
                &&& events.deep_view().len() == lines@.len()
                &&& forall|i: int|
                    0 <= i < lines@.len() ==> spec_parse_line(lines.deep_view()[i]) == Some(
                        events.deep_view()[i],
                    )
            },
            Err(e) => {
                &&& e.line_index < lines@.len()
                &&& spec_parse_line(lines.deep_view()[e.line_index as int]) is None
                &&& forall|j: int|
                    0 <= j < e.line_index ==> spec_parse_line(lines.deep_view()[j]) is Some
            },
        },
{
    let n = lines.len();
    let mut events: Vec<Event> = Vec::new();
    let mut i: usize = 0;
    while i < n
        invariant
            i <= n,
            n == lines@.len(),
            events.deep_view().len() == i,
            forall|j: int|
                0 <= j < i ==> spec_parse_line(lines.deep_view()[j]) == Some(
                    events.deep_view()[j],
                ),
        decreases n - i,
    {
        match parse_line(lines[i].as_str()) {
            Ok(e) => {
                events.push(e);
            },
            Err(_) => {
                return Err(StreamError { line_index: i });
            },
        }
        i = i + 1;
    }
    Ok(events)
}

/// The captured output of the first terminal test event for `target`,
/// empty if no event matches or the matching event carries none.
pub fn select_output(events: &Vec<Event>, target: &str) -> (out: String)
    ensures
        out@ == spec_selected_output(events.deep_view(), target@),
{
    let ghost dv = events.deep_view();
    let n = events.len();
    let mut i: usize = 0;
    while i < n
        invariant
            i <= n,
            n == events@.len(),
            dv == events.deep_view(),
            spec_first_match(dv, target@, 0) == spec_first_match(dv, target@, i as int),
        decreases n - i,
    {
        match &events[i] {
            Event::Test { phase, name, stdout } => {
                if str_eq(name.as_str(), target) && is_terminal_phase(phase.as_str()) {
                    assert(spec_matches_target(dv[i as int], target@));
                    match stdout {
                        Some(t) => {
                            return t.clone();
                        },
                        None => {
                            return String::new();
                        },
                    }
                }
            },
            Event::Suite { .. } => {},
        }
        proof {
            assert(!spec_matches_target(dv[i as int], target@));
        }
        i = i + 1;
    }
    String::new()
}

impl Test {
    /// The descriptor of one target test, created once per relaunch.
    pub fn new(name: String) -> (t: Test)
        ensures
            t.name@ == name@,
    {
        Test { name }
    }

    /// Decode the captured stream and extract the target test's output:
    /// the decoding of every line and the selection of the first terminal
    /// event for this test's name, in one step. The result is exactly the
    /// text the launcher must relay to standard output; a malformed line is
    /// fatal and reported with its position.
    pub fn relay_output(&self, lines: &Vec<String>) -> (r: Result<String, StreamError>)
        ensures
            match r {
                Ok(out) => {
                    &&& spec_all_lines_parse(lines.deep_view())
                    &&& out@ == spec_selected_output(
                        spec_stream_events(lines.deep_view()),
                        self.name@,
                    )
                },
                Err(e) => {
                    &&& e.line_index < lines@.len()
                    &&& spec_parse_line(lines.deep_view()[e.line_index as int]) is None
                    &&& forall|j: int|
                        0 <= j < e.line_index ==> spec_parse_line(lines.deep_view()[j]) is Some
                },
            },
    {
        match parse_stream(lines) {
            Err(e) => Err(e),
            Ok(events) => {
                proof {
                    assert(events.deep_view() =~= spec_stream_events(lines.deep_view()));
                }
                Ok(select_output(&events, self.name.as_str()))
            },
        }
    }
}

/// The path of a binary relative to the project root, if the root is a
/// prefix of its path.
pub open spec fn spec_relative_to_root(path: Seq<char>, root: Seq<char>) -> Option<Seq<char>> {
    if root.is_prefix_of(path) {
        Some(path.skip(root.len() as int))
    } else {
        None
    }
}

/// Strip the project root from the running binary's path. `None` marks a
/// binary outside the project root, which the protocol cannot relocate.
pub fn relative_to_root(path: &str, root: &str) -> (r: Option<String>)
    ensures
        match r {
            Some(rest) => spec_relative_to_root(path@, root@) == Some(rest@),
            None => spec_relative_to_root(path@, root@) is None,
        },
{
    let np = path.unicode_len();
    let nr = root.unicode_len();
    if nr > np {
        return None;
    }
    let mut i: usize = 0;
    while i < nr
        invariant
            i <= nr,
            nr <= np,
            np == path@.len(),
            nr == root@.len(),
            forall|j: int| 0 <= j < i ==> path@[j] == root@[j],
        decreases nr - i,
    {
        if path.get_char(i) != root.get_char(i) {
            proof {
                assert(path@.subrange(0, nr as int)[i as int] == path@[i as int]);
            }
            return None;
        }
        i = i + 1;
    }
    proof {
        assert(root@ =~= path@.subrange(0, nr as int));
    }
    let rest = path.substring_char(nr, np);
    proof {
        assert(rest@ =~= path@.skip(nr as int));
    }
    Some(rest.to_owned())
}

/// The in-container path of the relocated binary: the project root is
/// mounted at `/app`, so the binary's path is `/app/` plus its
/// root-relative path.
pub fn sandbox_binary_path(relative: &str) -> (r: String)
    ensures
        r@ == "/app/"@ + relative@,
{
    String::from_str("/app/").concat(relative)
}

/// The full argument list of one container invocation: remove the
/// container on exit, mount the project root read-only at `/app`, mark the
/// child as sandboxed, insert the caller's extra arguments before the
/// image, then run the relocated binary on exactly the target test with
/// output capture and line-delimited structured output.
pub open spec fn spec_invocation_args(
    name: Seq<char>,
    image: Seq<char>,
    root: Seq<char>,
    binary: Seq<char>,
    extra: Seq<Seq<char>>,
) -> Seq<Seq<char>> {
    seq![
        "run"@,
        "--rm"@,
        "-v"@,
        root + ":/app:ro"@,
        "--env"@,
        "SANDBOX_TESTING_RUNNING_IN_SANDBOX=1"@,
    ] + extra + seq![
        image,
        binary,
        name,
        "--exact"@,
        "--show-output"@,
        "-Zunstable-options"@,
        "--format"@,
        "json"@,
    ]
}

impl Test {
    /// Compose the container invocation for this test (the arguments that
    /// follow the container runtime's own name).
    pub fn invocation_args(
        &self,
        image: &str,
        project_root: &str,
        sandbox_binary: &str,
        extra: &Vec<String>,
    ) -> (args: Vec<String>)
        ensures
            args.deep_view() == spec_invocation_args(
                self.name@,
                image@,
                project_root@,
                sandbox_binary@,
                extra.deep_view(),
            ),
    {
        let ghost head: Seq<Seq<char>> = seq![
            "run"@,
            "--rm"@,
            "-v"@,
            project_root@ + ":/app:ro"@,
            "--env"@,
            "SANDBOX_TESTING_RUNNING_IN_SANDBOX=1"@,
        ];
        let mut args: Vec<String> = Vec::new();
        args.push(String::from_str("run"));
        args.push(String::from_str("--rm"));
        args.push(String::from_str("-v"));
        args.push(String::from_str(project_root).concat(":/app:ro"));
        args.push(String::from_str("--env"));
        args.push(String::from_str("SANDBOX_TESTING_RUNNING_IN_SANDBOX=1"));
        proof {
            assert(args.deep_view() =~= head);
        }
        let n = extra.len();
        let mut i: usize = 0;
        while i < n
            invariant
                i <= n,
                n == extra@.len(),
                head == seq![
                    "run"@,
                    "--rm"@,
                    "-v"@,
                    project_root@ + ":/app:ro"@,
                    "--env"@,
                    "SANDBOX_TESTING_RUNNING_IN_SANDBOX=1"@,
                ],
                args.deep_view() == head + extra.deep_view().take(i as int),
            decreases n - i,
        {
            let ghost pre_view = args@;
            let ghost pre = args.deep_view();
            args.push(extra[i].clone());
            i = i + 1;
            proof {
                assert forall|k: int| 0 <= k < args.deep_view().len() implies args.deep_view()[k]
                    == (head + extra.deep_view().take(i as int))[k] by {
                    if k < pre.len() {
                        assert(args@[k] == pre_view[k]);
                        assert(pre[k] == pre_view[k].deep_view());
                        assert(pre[k] == (head + extra.deep_view().take(i as int - 1))[k]);
                    } else {
                        assert(args@[k] == args@.last());
                    }
                }
                assert(pre.len() == pre_view.len());
                assert(pre.len() == head.len() + i - 1);
                assert(args.deep_view() =~= head + extra.deep_view().take(i as int));
            }
        }
        proof {
            assert(extra.deep_view().take(n as int) =~= extra.deep_view());
        }
        args.push(String::from_str(image));
        args.push(String::from_str(sandbox_binary));
        args.push(self.name.clone());
        args.push(String::from_str("--exact"));
        args.push(String::from_str("--show-output"));
        args.push(String::from_str("-Zunstable-options"));
        args.push(String::from_str("--format"));
        args.push(String::from_str("json"));
        proof {
            assert(args.deep_view() =~= spec_invocation_args(
                self.name@,
                image@,
                project_root@,
                sandbox_binary@,
                extra.deep_view(),
            ));
        }
        args
    }
}

proof fn lemma_first_match_from(events: Seq<EventV>, name: Seq<char>, k: int, i: int)
    requires
        0 <= k <= i < events.len(),
        spec_matches_target(events[i], name),
        forall|j: int| k <= j < i ==> !spec_matches_target(events[j], name),
    ensures
        spec_first_match(events, name, k) == Some(i),
    decreases i - k,
{
    if k < i {
        lemma_first_match_from(events, name, k + 1, i);
    }
}

/// Round-trip output relay: in a stream holding a terminal test event for
/// `name` whose captured output is `x`, with no earlier terminal test event
/// for that name, the selected output is exactly `x`, whatever other suite
/// or test events surround it.
pub proof fn lemma_round_trip_relay(
    events: Seq<EventV>,
    name: Seq<char>,
    phase: Seq<char>,
    x: Seq<char>,
    i: int,
)
    requires
        0 <= i < events.len(),
        events[i] == (EventV::Test { phase, name, stdout: Some(x) }),
        spec_is_terminal_phase(phase),
        forall|j: int| 0 <= j < i ==> !spec_matches_target(events[j], name),
    ensures
        spec_selected_output(events, name) == x,
{
    lemma_first_match_from(events, name, 0, i);
}

/// First-match selection: where two terminal test events carry the same
/// name, the earlier one in stream order decides the selected output; the
/// later one is ignored.
pub proof fn lemma_first_match_selection(events: Seq<EventV>, name: Seq<char>, i: int, j: int)
    requires
        0 <= i < j < events.len(),
        spec_matches_target(events[i], name),
        spec_matches_target(events[j], name),
        forall|k: int| 0 <= k < i ==> !spec_matches_target(events[k], name),
    ensures
        spec_selected_output(events, name) == spec_stdout_or_empty(events[i]),
{
    lemma_first_match_from(events, name, 0, i);
}

} // verus!
