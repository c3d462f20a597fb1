//! The daemon's end of a connection: what it does for each line that a client
//! sends, and what it writes over the whole connection.

use vstd::prelude::*;

use crate::host::{listed, opt_texts, Host, HostModel};
use crate::socket::{
    activation_reply, click_reply, command_on, handle_list, list_reply, on_lines, process_command,
    read_command, server_step, ServerStep, StepModel,
};
use crate::text::{find, lemma_find_bounds, opt_text};
use crate::wire::{lemma_on_lines_front, wire_lines};

verus! {

// ---------------------------------------------------------------------------
// One line
// ---------------------------------------------------------------------------

/// What the daemon does when it has read a line.
#[derive(Debug)]
pub enum LineStep {
    /// There was nothing more to read: close the connection.
    Close,
    /// The line holds no command: read the next one.
    Skip,
    /// Do this, send the reply, and read the next line.
    Serve(ServerStep),
}

/// What a step says.
pub enum LineStepModel {
    Close,
    Skip,
    Serve(StepModel),
}

impl View for LineStep {
    type V = LineStepModel;

    open spec fn view(&self) -> LineStepModel {
        match *self {
            LineStep::Close => LineStepModel::Close,
            LineStep::Skip => LineStepModel::Skip,
            LineStep::Serve(step) => LineStepModel::Serve(step@),
        }
    }
}

/// What the daemon does when it has read `line`, which has its line break with
/// it: the end of the stream alone reads as nothing at all.
pub open spec fn line_step(host: HostModel, line: Seq<char>) -> LineStepModel {
    if line.len() == 0 {
        LineStepModel::Close
    } else {
        match command_on(line) {
            Some(command) => LineStepModel::Serve(server_step(host, command)),
            None => LineStepModel::Skip,
        }
    }
}

/// What the daemon does when it has read `line`.
pub fn on_line(host: &Host, line: &str) -> (r: LineStep)
    ensures
        r@ == line_step(host@, line@),
{
    if line.is_empty() {
        return LineStep::Close;
    }
    match read_command(line) {
        Some(command) => LineStep::Serve(process_command(host, command.as_str())),
        None => LineStep::Skip,
    }
}

/// The reply once a step is done. `icons` is what is shown for the icon of each
/// item, and `error` is what came of the click; a step that has no use for them
/// ignores them.
pub open spec fn step_reply(
    host: HostModel,
    step: StepModel,
    icons: Seq<Option<Seq<char>>>,
    error: Option<Seq<char>>,
) -> Seq<char> {
    match step {
        StepModel::Reply(reply) => reply,
        StepModel::List => list_reply(listed(host, icons)),
        StepModel::Activate { .. } => click_reply(error),
    }
}

/// The reply once a step is done.
pub fn reply_to(
    host: &Host,
    step: ServerStep,
    icons: Vec<Option<String>>,
    error: &Option<String>,
) -> (r: String)
    requires
        step is List ==> icons@.len() == host@.entries.len(),
    ensures
        r@ == step_reply(host@, step@, opt_texts(icons@), opt_text(*error)),
{
    match step {
        ServerStep::Reply(reply) => reply,
        ServerStep::List => handle_list(host, icons),
        ServerStep::Activate { .. } => activation_reply(error),
    }
}

// ---------------------------------------------------------------------------
// The whole connection
// ---------------------------------------------------------------------------

/// A line that the daemon reads, with the tray as it is then, and with what
/// comes of the work that the line may ask for.
pub struct Exchange {
    pub host: HostModel,
    pub line: Seq<char>,
    pub icons: Seq<Option<Seq<char>>>,
    pub error: Option<Seq<char>>,
}

/// What the daemon writes over a connection: for each line the reply and a line
/// break, until it closes the connection.
pub open spec fn written(all: Seq<Exchange>) -> Seq<char>
    decreases all.len(),
{
    if all.len() == 0 {
        Seq::empty()
    } else {
        let e = all[0];
        match line_step(e.host, e.line) {
            LineStepModel::Close => Seq::empty(),
            LineStepModel::Skip => written(all.skip(1)),
            LineStepModel::Serve(step) => step_reply(e.host, step, e.icons, e.error).push('\n')
                + written(all.skip(1)),
        }
    }
}

/// The lines that hold a command, in the order in which they are read.
pub open spec fn with_command(all: Seq<Exchange>) -> Seq<Exchange> {
    all.filter(|e: Exchange| command_on(e.line) is Some)
}

/// The reply to the command on a line.
pub open spec fn answer(e: Exchange) -> Seq<char> {
    step_reply(e.host, server_step(e.host, command_on(e.line)->0), e.icons, e.error)
}

/// The replies to the commands, in the order in which they are read.
pub open spec fn answers(all: Seq<Exchange>) -> Seq<Seq<char>> {
    Seq::new(with_command(all).len(), |i: int| answer(with_command(all)[i]))
}

/// Whether every one of the lines was read, so that none is the end of the
/// stream.
pub open spec fn are_lines(all: Seq<Exchange>) -> bool {
    forall|i: int| 0 <= i < all.len() ==> (#[trigger] all[i]).line.len() > 0
}

/// Every command is answered once, in the order in which the commands are read.
/// A line without a command is not answered, and no reply, an error included,
/// keeps a later command from its answer.
pub proof fn every_command_is_answered(all: Seq<Exchange>)
    requires
        are_lines(all),
    ensures
        written(all) == on_lines(answers(all)),
    decreases all.len(),
{
    let holds = |e: Exchange| command_on(e.line) is Some;
    reveal(Seq::filter);
    if all.len() == 0 {
        assert(answers(all) == Seq::<Seq<char>>::empty());
    } else {
        let e = all[0];
        let rest = all.skip(1);
        let head = seq![e];
        assert(e.line.len() > 0);
        assert forall|i: int| 0 <= i < rest.len() implies (#[trigger] rest[i]).line.len() > 0 by {
            assert(rest[i] == all[i + 1]);
        }
        every_command_is_answered(rest);
        assert(all == head + rest);
        Seq::filter_distributes_over_add(head, rest, holds);
        assert(head.drop_last() == Seq::<Exchange>::empty());
        assert(head.drop_last().filter(holds) == Seq::<Exchange>::empty());
        if holds(e) {
            assert(head.filter(holds) == head);
            assert(with_command(all) == head + with_command(rest));
            assert(answers(all) == seq![answer(e)] + answers(rest));
            lemma_on_lines_front(answer(e), answers(rest));
        } else {
            assert(head.filter(holds) == Seq::<Exchange>::empty());
            assert(with_command(all) == with_command(rest));
            assert(answers(all) == answers(rest));
        }
    }
}

/// A connection goes on after any line: what is written for the lines before
/// and for the lines behind is written one after the other.
pub proof fn a_connection_goes_on(before: Seq<Exchange>, behind: Seq<Exchange>)
    requires
        are_lines(before),
    ensures
        written(before + behind) == written(before) + written(behind),
    decreases before.len(),
{
    if before.len() == 0 {
        assert(before + behind == behind);
        assert(written(before) + written(behind) == written(behind));
    } else {
        let rest = before.skip(1);
        assert(before[0].line.len() > 0);
        assert((before + behind)[0] == before[0]);
        assert((before + behind).skip(1) == rest + behind);
        assert forall|i: int| 0 <= i < rest.len() implies (#[trigger] rest[i]).line.len() > 0 by {
            assert(rest[i] == before[i + 1]);
        }
        a_connection_goes_on(rest, behind);
        assert(written(before + behind) == written(before) + written(behind));
    }
}

/// The end of the stream closes the connection, and nothing else does: what has
/// been read before is answered, and nothing is written behind it.
pub proof fn the_end_closes_the_connection(
    before: Seq<Exchange>,
    end: Exchange,
    behind: Seq<Exchange>,
)
    requires
        are_lines(before),
        end.line.len() == 0,
    ensures
        written(before + seq![end] + behind) == on_lines(answers(before)),
{
    let rest = seq![end] + behind;
    assert(before + seq![end] + behind == before + rest);
    assert(rest[0] == end);
    a_connection_goes_on(before, rest);
    every_command_is_answered(before);
    assert(written(before) + written(rest) == written(before));
}

proof fn lemma_wire_lines_are_lines(stream: Seq<char>)
    ensures
        forall|i: int| 0 <= i < wire_lines(stream).len() ==> (#[trigger] wire_lines(stream)[i]).len()
            > 0,
    decreases stream.len(),
{
    if stream.len() > 0 && find(stream, '\n') < stream.len() {
        let rest = stream.skip(find(stream, '\n') as int + 1);
        lemma_find_bounds(stream, '\n');
        lemma_wire_lines_are_lines(rest);
        assert forall|i: int| 0 <= i < wire_lines(stream).len() implies (
        #[trigger] wire_lines(stream)[i]).len() > 0 by {
            if i > 0 {
                assert(wire_lines(stream)[i] == wire_lines(rest)[i - 1]);
            }
        }
    }
}

/// Whatever a client sends before it ends the stream, the daemon writes one
/// reply for each line that holds a command, in the order in which they were
/// sent, each on a line of its own, and nothing for any other line.
pub proof fn a_stream_is_answered(stream: Seq<char>, all: Seq<Exchange>, end: Exchange)
    requires
        all.len() == wire_lines(stream).len(),
        forall|i: int| 0 <= i < all.len() ==> (#[trigger] all[i]).line == wire_lines(stream)[i],
        end.line.len() == 0,
    ensures
        written(all.push(end)) == on_lines(answers(all)),
{
    lemma_wire_lines_are_lines(stream);
    assert forall|i: int| 0 <= i < all.len() implies (#[trigger] all[i]).line.len() > 0 by {
        assert(all[i].line == wire_lines(stream)[i]);
    }
    the_end_closes_the_connection(all, end, Seq::empty());
    assert(all + seq![end] + Seq::<Exchange>::empty() == all.push(end));
}

} // verus!
