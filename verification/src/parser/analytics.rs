//! The event log: what each decoded line adds to the counters and to the
//! command ranking, how lines are taken in batches, and the final report.

use crate::error::{Area, ExtractError};
use crate::models::discord_models::DApplicationCommandUsed;
use crate::models::events::{lemma_named_frame, Event, EventCount, EventKind, MostUsedCommand};
use crate::parser::Parser;
use crate::ranking::{top, top_ranked};
use crate::resources::measure_resources;
use crate::text::{decimal, push_decimal, texts};
use vstd::prelude::*;

verus! {

/// The name of the event log: `analytics/events-` followed by four digits,
/// five digits, `-of-`, five digits and `.json`.
pub const ANALYTICS_PATTERN: &'static str =
    r"analytics/events-[0-9]{4}-[0-9]{5}-of-[0-9]{5}\.json$";

/// How many commands the ranking of commands keeps.
pub const COMMAND_LIMIT: usize = 20;

/// How often progress is reported: at every that-many-th batch.
pub const BATCH_PROGRESS_INTERVAL: u64 = 10;

/// A line that decoded as an event, with the command details of the line
/// if it decoded as a command use too.
pub struct EventRecord {
    pub event: Event,
    pub command: Option<DApplicationCommandUsed>,
}

/// The kind of a decoded event, if its type is in the vocabulary.
pub open spec fn kind_of(record: EventRecord) -> Option<EventKind> {
    EventKind::of(record.event.event_type@)
}

/// The command details that a line adds to the ranking: those of an
/// `application_command_used` event that decoded as a command use.
pub open spec fn command_of(line: Option<EventRecord>) -> Option<DApplicationCommandUsed> {
    match line {
        Some(record) => if kind_of(record) == Some(EventKind::ApplicationCommandUsed) {
            record.command
        } else {
            None
        },
        None => None,
    }
}

/// How many of the first `n` of `lines` decoded as an event.
pub open spec fn decoded_count(lines: Seq<Option<EventRecord>>, n: int) -> int
    decreases n,
{
    if n <= 0 || n > lines.len() {
        0
    } else {
        decoded_count(lines, n - 1) + if lines[n - 1] is Some {
            1int
        } else {
            0int
        }
    }
}

/// Whether a line is an event of `kind`.
pub open spec fn is_kind(line: Option<EventRecord>, kind: EventKind) -> bool {
    line matches Some(record) && kind_of(record) == Some(kind)
}

/// How many of the first `n` of `lines` are events of `kind`.
pub open spec fn kind_count(lines: Seq<Option<EventRecord>>, kind: EventKind, n: int) -> int
    decreases n,
{
    if n <= 0 || n > lines.len() {
        0
    } else {
        kind_count(lines, kind, n - 1) + if is_kind(lines[n - 1], kind) {
            1int
        } else {
            0int
        }
    }
}

/// Position of the first of `commands`, from `from` on, with the id
/// `command_id`, or -1.
pub open spec fn command_position(
    commands: Seq<MostUsedCommand>,
    command_id: Seq<char>,
    from: int,
) -> int
    decreases commands.len() - from,
{
    if from < 0 || from >= commands.len() {
        -1
    } else if commands[from].command_id@ == command_id {
        from
    } else {
        command_position(commands, command_id, from + 1)
    }
}

/// The first of two values that is present.
pub open spec fn first_present(kept: Option<String>, offered: Option<String>) -> Option<String> {
    if kept is Some {
        kept
    } else {
        offered
    }
}

/// The ranking entries after one more use of a command: the entry with its
/// id counts one more, and takes name and description from the use where it
/// had none; a command never seen joins at the end with count one.
pub open spec fn merged(commands: Seq<MostUsedCommand>, used: DApplicationCommandUsed) -> Seq<
    MostUsedCommand,
> {
    let at = command_position(commands, used.command_id@, 0);
    if at >= 0 {
        commands.update(
            at,
            MostUsedCommand {
                command_id: commands[at].command_id,
                application_id: commands[at].application_id,
                command_name: first_present(commands[at].command_name, used.command_name),
                command_description: first_present(
                    commands[at].command_description,
                    used.command_description,
                ),
                count: (commands[at].count + 1) as u32,
            },
        )
    } else {
        commands.push(
            MostUsedCommand {
                command_id: used.command_id,
                application_id: used.application_id,
                command_name: used.command_name,
                command_description: used.command_description,
                count: 1,
            },
        )
    }
}

/// The ranking entries after one line.
pub open spec fn commands_step(commands: Seq<MostUsedCommand>, line: Option<EventRecord>) -> Seq<
    MostUsedCommand,
> {
    match command_of(line) {
        Some(used) => merged(commands, used),
        None => commands,
    }
}

/// The ranking entries after the first `n` of `lines`, starting from
/// `commands`.
pub open spec fn commands_after(
    commands: Seq<MostUsedCommand>,
    lines: Seq<Option<EventRecord>>,
    n: int,
) -> Seq<MostUsedCommand>
    decreases n,
{
    if n <= 0 || n > lines.len() {
        commands
    } else {
        commands_step(commands_after(commands, lines, n - 1), lines[n - 1])
    }
}

/// Whether `counts` is the tally of `lines`: every decoded line is counted
/// once in all, and once more under its kind if it has one; the commands
/// are merged in the order of the lines.
pub open spec fn tallies(counts: EventCount, lines: Seq<Option<EventRecord>>) -> bool {
    &&& counts.all_events == decoded_count(lines, lines.len() as int)
    &&& forall|kind: EventKind|
        #[trigger] counts.named(kind) == kind_count(lines, kind, lines.len() as int)
    &&& counts.most_used_commands@ == commands_after(Seq::empty(), lines, lines.len() as int)
}

/// No counter exceeds the count of all events, and no command was used more
/// often than command events were counted.
pub open spec fn bounded(counts: EventCount) -> bool {
    &&& forall|kind: EventKind| #[trigger] counts.named(kind) <= counts.all_events
    &&& forall|i: int|
        0 <= i < counts.most_used_commands@.len() ==> (
        #[trigger] counts.most_used_commands@[i]).count <= counts.named(
            EventKind::ApplicationCommandUsed,
        )
}

/// The progress message of a batch.
pub open spec fn batch_progress_text(batch_number: nat, processed_lines: nat) -> Seq<char> {
    "Processing batch "@ + decimal(batch_number) + " ("@ + decimal(processed_lines)
        + " lines processed so far)"@
}

/// The message that ends the stage.
pub open spec fn completion_text(processed_lines: nat) -> Seq<char> {
    "Analytics processing complete: "@ + decimal(processed_lines) + " lines processed"@
}

/// The message that opens the stage.
pub const BATCHES_ANNOUNCEMENT: &'static str = "Processing analytics in batches...";

/// The progress messages of a stream of `total` lines from the point where
/// `processed` lines were taken in `batches` batches: one at every tenth
/// batch, with the lines processed up to and including that batch.
pub open spec fn batch_messages(total: nat, batch_size: nat, processed: nat, batches: nat) -> Seq<
    Seq<char>,
>
    decreases total - processed,
{
    if batch_size == 0 || processed >= total {
        Seq::empty()
    } else {
        let taken = if total - processed < batch_size {
            (total - processed) as nat
        } else {
            batch_size
        };
        let here = if (batches + 1) % (BATCH_PROGRESS_INTERVAL as nat) == 0 {
            seq![batch_progress_text(batches + 1, processed + taken)]
        } else {
            Seq::empty()
        };
        here + batch_messages(total, batch_size, processed + taken, batches + 1)
    }
}

/// The lines that a stream in batches of `batch_size` takes in: all of
/// them, unless batches are empty.
pub open spec fn lines_taken(lines: Seq<Option<EventRecord>>, batch_size: usize) -> Seq<
    Option<EventRecord>,
> {
    if batch_size == 0 {
        Seq::empty()
    } else {
        lines
    }
}

/// All messages of the stage, in order: the opening, the progress of the
/// batches, and the completion.
pub open spec fn handler_messages(total: nat, batch_size: usize) -> Seq<Seq<char>> {
    seq![BATCHES_ANNOUNCEMENT@] + batch_messages(total, batch_size as nat, 0, 0) + seq![
        completion_text(
            if batch_size == 0 {
                0
            } else {
                total
            },
        ),
    ]
}

/// What a batch of lines led to: the progress to report, if any, and
/// whether another batch is to be read.
pub struct BatchOutcome {
    pub progress: Option<String>,
    pub more: bool,
}

/// The state of the event-log stage between batches.
pub struct AnalyticsRun {
    pub counts: EventCount,
    pub batch_size: usize,
    pub batch_number: u64,
    pub processed_lines: u64,
    pub seen: Ghost<Seq<Option<EventRecord>>>,
}

impl AnalyticsRun {
    /// The counters are the tally of the lines seen, and the bookkeeping
    /// agrees with them.
    pub open spec fn wf(&self) -> bool {
        &&& tallies(self.counts, self.seen@)
        &&& bounded(self.counts)
        &&& self.processed_lines == self.seen@.len()
        &&& self.batch_number <= self.processed_lines
    }

    /// Whether the counters can take the batch `lines`.
    pub open spec fn has_room(&self, lines: Seq<Option<EventRecord>>) -> bool {
        &&& self.counts.all_events + decoded_count(lines, lines.len() as int) <= u32::MAX
        &&& self.processed_lines + lines.len() <= u64::MAX
    }

    /// The stage before any line, for batches of `batch_size` lines.
    pub fn new(batch_size: usize) -> (r: Self)
        ensures
            r.wf(),
            r.seen@.len() == 0,
            r.batch_size == batch_size,
            r.batch_number == 0,
    {
        let r = AnalyticsRun {
            counts: EventCount::new(),
            batch_size,
            batch_number: 0,
            processed_lines: 0,
            seen: Ghost(Seq::empty()),
        };
        assert(r.counts.most_used_commands@ =~= Seq::empty());
        r
    }

    /// Whether the counters can take the batch `lines`.
    pub fn can_absorb(&self, lines: &Vec<Option<EventRecord>>) -> (b: bool)
        ensures
            b == self.has_room(lines@),
    {
        let n = lines.len();
        if self.processed_lines > u64::MAX - n as u64 {
            return false;
        }
        let limit: u64 = 0xffff_ffff;
        let mut events: u64 = self.counts.all_events as u64;
        let mut i: usize = 0;
        while i < n
            invariant
                i <= n == lines.len(),
                limit == u32::MAX,
                events == self.counts.all_events + decoded_count(lines@, i as int),
                events <= limit,
            decreases n - i,
        {
            proof {
                lemma_decoded_count_monotone(lines@, i + 1, n as int);
            }
            if lines[i].is_some() {
                events = events + 1;
                if events > limit {
                    return false;
                }
            }
            i += 1;
        }
        true
    }

    /// Takes in one batch of lines. An empty batch ends the stream and
    /// changes nothing. Any other batch is numbered and counted, progress is
    /// due at every tenth batch, and the stream goes on unless the batch is
    /// shorter than the batch size.
    pub fn absorb_batch(&mut self, lines: Vec<Option<EventRecord>>) -> (outcome: BatchOutcome)
        requires
            old(self).wf(),
            old(self).has_room(lines@),
        ensures
            final(self).wf(),
            final(self).seen@ == old(self).seen@ + lines@,
            final(self).processed_lines == old(self).processed_lines + lines@.len(),
            final(self).batch_size == old(self).batch_size,
            final(self).batch_number == old(self).batch_number + if lines@.len() > 0 {
                1int
            } else {
                0int
            },
            outcome.more == (lines@.len() > 0 && lines@.len() >= old(self).batch_size),
            match outcome.progress {
                Some(text) => lines@.len() > 0 && final(self).batch_number
                    % BATCH_PROGRESS_INTERVAL == 0 && text@ == batch_progress_text(
                    final(self).batch_number as nat,
                    final(self).processed_lines as nat,
                ),
                None => lines@.len() == 0 || final(self).batch_number % BATCH_PROGRESS_INTERVAL
                    != 0,
            },
    {
        let n = lines.len();
        if n == 0 {
            assert(self.seen@ + lines@ =~= self.seen@);
            return BatchOutcome { progress: None, more: false };
        }
        let more = n >= self.batch_size;
        self.batch_number = self.batch_number + 1;
        self.processed_lines = self.processed_lines + n as u64;
        let progress = if self.batch_number % BATCH_PROGRESS_INTERVAL == 0 {
            let mut text = String::from_str("Processing batch ");
            push_decimal(&mut text, self.batch_number);
            text.append(" (");
            push_decimal(&mut text, self.processed_lines);
            text.append(" lines processed so far)");
            Some(text)
        } else {
            None
        };
        let ghost all = lines@;
        let ghost before = self.seen@;
        let ghost base = self.counts.all_events;
        proof {
            assert(before + all.take(0) =~= before);
        }
        for line in it: lines
            invariant
                it.seq() == all,
                before == old(self).seen@,
                base == old(self).counts.all_events,
                base + decoded_count(all, all.len() as int) <= u32::MAX,
                self.batch_size == old(self).batch_size,
                self.batch_number == old(self).batch_number + 1,
                self.processed_lines == old(self).processed_lines + all.len(),
                self.seen@ == before + all.take(it.index() as int),
                tallies(self.counts, self.seen@),
                bounded(self.counts),
                self.counts.all_events == base + decoded_count(all, it.index() as int),
        {
            let ghost so_far = self.seen@;
            proof {
                lemma_decoded_count_monotone(all, it.index() + 1, all.len() as int);
            }
            Parser::count_line(&mut self.counts, line);
            proof {
                self.seen@ = so_far.push(line);
                assert(self.seen@ =~= before + all.take(it.index() + 1));
                lemma_tally_step(*old(self), so_far, line, self.counts);
            }
        }
        proof {
            assert(all.take(all.len() as int) =~= all);
        }
        BatchOutcome { progress, more }
    }

    /// Takes in one batch of lines if the counters have room for it.
    pub fn try_absorb(&mut self, lines: Vec<Option<EventRecord>>) -> (r: Result<
        BatchOutcome,
        ExtractError,
    >)
        requires
            old(self).wf(),
        ensures
            final(self).wf(),
            final(self).batch_size == old(self).batch_size,
            r is Ok <==> old(self).has_room(lines@),
            match r {
                Ok(outcome) => {
                    &&& final(self).seen@ == old(self).seen@ + lines@
                    &&& final(self).processed_lines == old(self).processed_lines + lines@.len()
                    &&& final(self).batch_number == old(self).batch_number + if lines@.len() > 0 {
                        1int
                    } else {
                        0int
                    }
                    &&& outcome.more == (lines@.len() > 0 && lines@.len() >= old(self).batch_size)
                    &&& match outcome.progress {
                        Some(text) => lines@.len() > 0 && final(self).batch_number
                            % BATCH_PROGRESS_INTERVAL == 0 && text@ == batch_progress_text(
                            final(self).batch_number as nat,
                            final(self).processed_lines as nat,
                        ),
                        None => lines@.len() == 0 || final(self).batch_number
                            % BATCH_PROGRESS_INTERVAL != 0,
                    }
                },
                Err(e) => e is Overflow && !old(self).has_room(lines@) && *final(self) == *old(
                    self,
                ),
            },
    {
        if !self.can_absorb(&lines) {
            return Err(ExtractError::Overflow);
        }
        Ok(self.absorb_batch(lines))
    }

    /// Ends the stage: the report with the commands ranked and cut to the
    /// twenty most used, and the message that ends the stage.
    pub fn finish(self) -> (r: (EventCount, String))
        requires
            self.wf(),
        ensures
            reports(r.0, self.seen@),
            r.1@ == completion_text(self.seen@.len()),
    {
        let AnalyticsRun { counts, batch_size: _, batch_number: _, processed_lines, seen: _ } =
            self;
        let ghost before = counts;
        let mut counts = counts;
        let mut commands: Vec<MostUsedCommand> = Vec::new();
        std::mem::swap(&mut counts.most_used_commands, &mut commands);
        counts.most_used_commands = top_ranked(commands, COMMAND_LIMIT);
        proof {
            lemma_named_frame(before, counts);
        }
        let mut text = String::from_str("Analytics processing complete: ");
        push_decimal(&mut text, processed_lines);
        text.append(" lines processed");
        (counts, text)
    }
}

impl<'a> Parser<'a> {
    /// The member that holds the event log: the first whose name ends like
    /// an event log's.
    pub fn get_analytics_root(files: &Vec<String>) -> (r: Result<String, ExtractError>)
        ensures
            crate::parser::utils::is_root_outcome(
                r,
                crate::parser::utils::root_outcome(
                    texts(files@),
                    ANALYTICS_PATTERN@,
                    0,
                    Area::Analytics,
                ),
            ),
    {
        Parser::locate_root(ANALYTICS_PATTERN, files, 0, Area::Analytics)
    }

    /// The event-log stage over the decoded lines of a log, taken in batches
    /// of `batch_size`: the report and the messages of the stage, in order.
    /// Cancellation is checked once before each batch. The stage gives up
    /// when the log holds more events than a counter can count.
    pub fn analytics_handler(&self, lines: Vec<Option<EventRecord>>, batch_size: usize) -> (r:
        Result<(EventCount, Vec<String>), ExtractError>)
        ensures
            match r {
                Ok((counts, messages)) => {
                    &&& reports(counts, lines_taken(lines@, batch_size))
                    &&& texts(messages@) == handler_messages(lines@.len(), batch_size)
                },
                Err(e) => e is Cancelled || (e is Overflow && decoded_count(
                    lines@,
                    lines@.len() as int,
                ) > u32::MAX),
            },
    {
        let ghost all = lines@;
        let total = lines.len();
        let mut rest = lines;
        let mut run = AnalyticsRun::new(batch_size);
        let mut messages: Vec<String> = Vec::new();
        messages.push(String::from_str(BATCHES_ANNOUNCEMENT));
        let ghost opening = seq![BATCHES_ANNOUNCEMENT@];
        let ghost whole = batch_messages(total as nat, batch_size as nat, 0, 0);
        assert(texts(messages@) =~= opening);
        assert(run.seen@ =~= all.take(0));
        assert(rest@ =~= all.skip(0));
        loop
            invariant
                all == lines@,
                total == all.len(),
                rest@.len() <= total,
                run.wf(),
                run.batch_size == batch_size,
                run.seen@ == all.take(total - rest@.len()),
                rest@ == all.skip(total - rest@.len()),
                batch_size == 0 ==> rest@.len() == total,
                opening == seq![BATCHES_ANNOUNCEMENT@],
                whole == batch_messages(total as nat, batch_size as nat, 0, 0),
                texts(messages@) + batch_messages(
                    total as nat,
                    batch_size as nat,
                    (total - rest@.len()) as nat,
                    run.batch_number as nat,
                ) == opening + whole,
            ensures
                batch_size == 0 || rest@.len() == 0,
            decreases rest@.len(),
        {
            match self.check_cancellation_token() {
                Err(e) => {
                    return Err(e);
                },
                Ok(()) => {},
            }
            let ghost processed = total - rest@.len();
            let ghost remaining = rest@;
            let mut batch: Vec<Option<EventRecord>> = Vec::new();
            if rest.len() > batch_size {
                let mut tail = rest.split_off(batch_size);
                std::mem::swap(&mut rest, &mut tail);
                batch = tail;
            } else {
                std::mem::swap(&mut rest, &mut batch);
            }
            assert(remaining =~= batch@ + rest@);
            if batch.len() == 0 {
                break;
            }
            proof {
                assert(all.take(processed + batch@.len()) =~= all.take(processed) + batch@);
                lemma_decoded_count_concat(all.take(processed), batch@);
                lemma_counts_prefix(
                    all,
                    all.take(processed + batch@.len()),
                    processed + batch@.len(),
                );
                lemma_decoded_count_monotone(all, processed + batch@.len(), total as int);
            }
            if !run.can_absorb(&batch) {
                assert(run.processed_lines + batch@.len() <= u64::MAX);
                assert(run.counts.all_events == decoded_count(
                    all.take(processed),
                    all.take(processed).len() as int,
                ));
                assert(decoded_count(all, processed + batch@.len()) > u32::MAX);
                return Err(ExtractError::Overflow);
            }
            let ghost before = texts(messages@);
            let outcome = run.absorb_batch(batch);
            match outcome.progress {
                Some(text) => {
                    messages.push(text);
                    assert(texts(messages@) =~= before + seq![text@]);
                },
                None => {},
            }
            proof {
                let here = if run.batch_number % BATCH_PROGRESS_INTERVAL == 0 {
                    seq![
                        batch_progress_text(
                            run.batch_number as nat,
                            (total - rest@.len()) as nat,
                        ),
                    ]
                } else {
                    Seq::empty()
                };
                let later = batch_messages(
                    total as nat,
                    batch_size as nat,
                    (total - rest@.len()) as nat,
                    run.batch_number as nat,
                );
                assert(texts(messages@) =~= before + here);
                assert((before + here) + later =~= before + (here + later));
            }
            if !outcome.more {
                break;
            }
        }
        let ghost taken = lines_taken(all, batch_size);
        assert(run.seen@ =~= taken);
        let ghost before = texts(messages@);
        let (counts, done) = run.finish();
        messages.push(done);
        proof {
            assert(texts(messages@) =~= before + seq![done@]);
            assert(batch_messages(
                total as nat,
                batch_size as nat,
                (total - rest@.len()) as nat,
                run.batch_number as nat,
            ) =~= Seq::empty());
            assert(before =~= opening + whole);
        }
        Ok((counts, messages))
    }

    /// The capacity of the read buffer and the batch size for this machine,
    /// measured once.
    pub fn determine_resources(&self) -> (r: (usize, usize))
        ensures
            exists|available_memory: u64, cores: usize|
                r.0 == crate::resources::buffer_capacity_for(available_memory) && r.1
                    == crate::resources::batch_size_for(cores),
            r.0 <= crate::resources::BUFFER_LIMIT,
            r.1 >= crate::resources::BATCH_UNIT,
    {
        measure_resources()
    }

    /// Whether the command details of a decoded event are wanted: they are
    /// for an `application_command_used` event.
    pub fn wants_command(event: &Event) -> (b: bool)
        ensures
            b == (EventKind::of(event.event_type@) == Some(EventKind::ApplicationCommandUsed)),
    {
        match EventKind::classify(event.event_type.as_str()) {
            Some(EventKind::ApplicationCommandUsed) => true,
            _ => false,
        }
    }

    /// Merges one use of a command into the ranking entries.
    pub fn merge_command(commands: &mut Vec<MostUsedCommand>, used: DApplicationCommandUsed)
        requires
            forall|i: int| 0 <= i < old(commands)@.len() ==> old(commands)@[i].count < u32::MAX,
        ensures
            final(commands)@ == merged(old(commands)@, used),
    {
        let mut at: usize = 0;
        while at < commands.len() && !(commands[at].command_id == used.command_id)
            invariant
                at <= commands.len(),
                commands@ == old(commands)@,
                command_position(commands@, used.command_id@, 0) == command_position(
                    commands@,
                    used.command_id@,
                    at as int,
                ),
            decreases commands.len() - at,
        {
            at += 1;
        }
        if at < commands.len() {
            let entry = &mut commands[at];
            entry.count = entry.count + 1;
            if entry.command_name.is_none() {
                entry.command_name = used.command_name;
            }
            if entry.command_description.is_none() {
                entry.command_description = used.command_description;
            }
            assert(commands@ =~= merged(old(commands)@, used));
        } else {
            commands.push(
                MostUsedCommand {
                    command_id: used.command_id,
                    application_id: used.application_id,
                    command_name: used.command_name,
                    command_description: used.command_description,
                    count: 1,
                },
            );
        }
    }

    /// Counts one line of the event log. A line that did not decode counts
    /// nowhere. A decoded event counts once in all and once under its kind,
    /// if its type is in the vocabulary; a command use is merged into the
    /// command entries.
    pub fn count_line(counts: &mut EventCount, line: Option<EventRecord>)
        requires
            line is Some ==> old(counts).all_events < u32::MAX,
            bounded(*old(counts)),
        ensures
            bounded(*final(counts)),
            final(counts).all_events == old(counts).all_events + if line is Some {
                1int
            } else {
                0int
            },
            forall|kind: EventKind|
                #[trigger] final(counts).named(kind) == old(counts).named(kind) + if is_kind(
                    line,
                    kind,
                ) {
                    1int
                } else {
                    0int
                },
            final(counts).most_used_commands@ == commands_step(
                old(counts).most_used_commands@,
                line,
            ),
    {
        match line {
            None => {},
            Some(record) => {
                let EventRecord { event, command } = record;
                let kind = EventKind::classify(event.event_type.as_str());
                let ghost before = *counts;
                assert(before.named(EventKind::ApplicationCommandUsed) <= before.all_events);
                counts.all_events = counts.all_events + 1;
                proof {
                    lemma_named_frame(before, *counts);
                }
                match kind {
                    Some(kind) => {
                        assert(before.named(kind) <= before.all_events);
                        if kind == EventKind::ApplicationCommandUsed {
                            match command {
                                Some(used) => {
                                    let ghost unmerged = *counts;
                                    Parser::merge_command(&mut counts.most_used_commands, used);
                                    proof {
                                        lemma_named_frame(unmerged, *counts);
                                        lemma_merged_bounded(
                                            before.most_used_commands@,
                                            used,
                                            before.named(EventKind::ApplicationCommandUsed) as int,
                                        );
                                    }
                                },
                                None => {},
                            }
                        }
                        let ghost middle = *counts;
                        counts.bump(kind);
                        assert forall|other: EventKind| #[trigger]
                            counts.named(other) <= counts.all_events by {
                            assert(before.named(other) <= before.all_events);
                            assert(middle.named(other) == before.named(other));
                        }
                        assert(counts.named(EventKind::ApplicationCommandUsed) == before.named(
                            EventKind::ApplicationCommandUsed,
                        ) + if kind == EventKind::ApplicationCommandUsed {
                            1int
                        } else {
                            0int
                        }) by {
                            assert(middle.named(EventKind::ApplicationCommandUsed) == before.named(
                                EventKind::ApplicationCommandUsed,
                            ));
                        }
                        assert forall|other: EventKind| #[trigger]
                            counts.named(other) == before.named(other) + if is_kind(line, other) {
                                1int
                            } else {
                                0int
                            } by {
                            assert(middle.named(other) == before.named(other));
                        }
                    },
                    None => {
                        assert forall|other: EventKind| #[trigger]
                            counts.named(other) <= counts.all_events by {
                            assert(before.named(other) <= before.all_events);
                        }
                    },
                }
            },
        }
    }
}

/// Merging one use keeps every entry's count within one more than the bound
/// it had.
pub proof fn lemma_merged_bounded(
    commands: Seq<MostUsedCommand>,
    used: DApplicationCommandUsed,
    bound: int,
)
    requires
        0 <= bound < u32::MAX,
        forall|i: int| 0 <= i < commands.len() ==> (#[trigger] commands[i]).count <= bound,
    ensures
        forall|i: int|
            0 <= i < merged(commands, used).len() ==> (#[trigger] merged(commands, used)[i]).count
                <= bound + 1,
{
    lemma_command_position(commands, used.command_id@, 0);
    let at = command_position(commands, used.command_id@, 0);
    let out = merged(commands, used);
    assert forall|i: int| 0 <= i < out.len() implies (#[trigger] out[i]).count <= bound + 1 by {
        if at >= 0 {
            if i != at {
                assert(out[i] == commands[i]);
            } else {
                assert(commands[at].count <= bound);
            }
        } else if i < commands.len() {
            assert(out[i] == commands[i]);
        }
    }
}

/// What the search for a command finds: the first entry with the id, or
/// nothing when no entry from `from` on has it.
pub proof fn lemma_command_position(commands: Seq<MostUsedCommand>, id: Seq<char>, from: int)
    requires
        0 <= from,
    ensures
        ({
            let at = command_position(commands, id, from);
            if at < 0 {
                at == -1 && forall|i: int|
                    from <= i < commands.len() ==> commands[i].command_id@ != id
            } else {
                &&& from <= at < commands.len()
                &&& commands[at].command_id@ == id
                &&& forall|i: int| from <= i < at ==> commands[i].command_id@ != id
            }
        }),
    decreases commands.len() - from,
{
    if from < commands.len() && commands[from].command_id@ != id {
        lemma_command_position(commands, id, from + 1);
    }
}

/// Counting one more line keeps the counters the tally of the lines seen.
pub proof fn lemma_tally_step(
    start: AnalyticsRun,
    so_far: Seq<Option<EventRecord>>,
    line: Option<EventRecord>,
    after: EventCount,
)
    requires
        exists|before: EventCount|
            {
                &&& tallies(before, so_far)
                &&& after.all_events == before.all_events + if line is Some {
                    1int
                } else {
                    0int
                }
                &&& forall|kind: EventKind|
                    #[trigger] after.named(kind) == before.named(kind) + if is_kind(line, kind) {
                        1int
                    } else {
                        0int
                    }
                &&& after.most_used_commands@ == commands_step(before.most_used_commands@, line)
            },
    ensures
        tallies(after, so_far.push(line)),
{
    let lines = so_far.push(line);
    let n = lines.len() as int;
    assert(lines.drop_last() =~= so_far);
    lemma_counts_prefix(lines, so_far, n - 1);
    assert forall|kind: EventKind| #[trigger]
        after.named(kind) == kind_count(lines, kind, n) by {
        lemma_kind_prefix(lines, so_far, kind, n - 1);
    }
    lemma_commands_prefix(Seq::empty(), lines, so_far, n - 1);
}

/// The events of two runs of lines add up.
pub proof fn lemma_decoded_count_concat(a: Seq<Option<EventRecord>>, b: Seq<Option<EventRecord>>)
    ensures
        decoded_count(a + b, (a + b).len() as int) == decoded_count(a, a.len() as int)
            + decoded_count(b, b.len() as int),
    decreases b.len(),
{
    if b.len() == 0 {
        assert(a + b =~= a);
    } else {
        lemma_decoded_count_concat(a, b.drop_last());
        assert((a + b).drop_last() =~= a + b.drop_last());
        lemma_counts_prefix(a + b, a + b.drop_last(), (a + b).len() - 1);
        lemma_counts_prefix(b, b.drop_last(), b.len() - 1);
    }
}

/// More lines never count fewer events.
pub proof fn lemma_decoded_count_monotone(lines: Seq<Option<EventRecord>>, i: int, n: int)
    requires
        0 <= i <= n <= lines.len(),
    ensures
        0 <= decoded_count(lines, i) <= decoded_count(lines, n),
    decreases n,
{
    if i < n {
        lemma_decoded_count_monotone(lines, i, n - 1);
    } else if n > 0 {
        lemma_decoded_count_monotone(lines, i - 1, n - 1);
    }
}

/// Counts over a prefix depend on the prefix alone.
pub proof fn lemma_counts_prefix(a: Seq<Option<EventRecord>>, b: Seq<Option<EventRecord>>, n: int)
    requires
        0 <= n <= a.len(),
        n <= b.len(),
        forall|i: int| 0 <= i < n ==> a[i] == b[i],
    ensures
        decoded_count(a, n) == decoded_count(b, n),
    decreases n,
{
    if n > 0 {
        lemma_counts_prefix(a, b, n - 1);
    }
}

/// Counts of a kind over a prefix depend on the prefix alone.
pub proof fn lemma_kind_prefix(
    a: Seq<Option<EventRecord>>,
    b: Seq<Option<EventRecord>>,
    kind: EventKind,
    n: int,
)
    requires
        0 <= n <= a.len(),
        n <= b.len(),
        forall|i: int| 0 <= i < n ==> a[i] == b[i],
    ensures
        kind_count(a, kind, n) == kind_count(b, kind, n),
    decreases n,
{
    if n > 0 {
        lemma_kind_prefix(a, b, kind, n - 1);
    }
}

/// The commands merged over a prefix depend on the prefix alone.
pub proof fn lemma_commands_prefix(
    commands: Seq<MostUsedCommand>,
    a: Seq<Option<EventRecord>>,
    b: Seq<Option<EventRecord>>,
    n: int,
)
    requires
        0 <= n <= a.len(),
        n <= b.len(),
        forall|i: int| 0 <= i < n ==> a[i] == b[i],
    ensures
        commands_after(commands, a, n) == commands_after(commands, b, n),
    decreases n,
{
    if n > 0 {
        lemma_commands_prefix(commands, a, b, n - 1);
    }
}

/// Whether no two of `commands` have the same id.
pub open spec fn distinct_commands(commands: Seq<MostUsedCommand>) -> bool {
    forall|i: int, j: int|
        0 <= i < j < commands.len() ==> (#[trigger] commands[i]).command_id@ != (
        #[trigger] commands[j]).command_id@
}

/// Merging one use keeps the ids of the entries distinct.
pub proof fn lemma_merged_distinct(commands: Seq<MostUsedCommand>, used: DApplicationCommandUsed)
    requires
        distinct_commands(commands),
    ensures
        distinct_commands(merged(commands, used)),
{
    lemma_command_position(commands, used.command_id@, 0);
    let out = merged(commands, used);
    let at = command_position(commands, used.command_id@, 0);
    assert forall|i: int, j: int| 0 <= i < j < out.len() implies (#[trigger] out[i]).command_id@
        != (#[trigger] out[j]).command_id@ by {
        if at >= 0 {
            assert(out[i].command_id@ == commands[i].command_id@);
            assert(out[j].command_id@ == commands[j].command_id@);
        } else if j < commands.len() {
            assert(out[i] == commands[i] && out[j] == commands[j]);
        } else {
            assert(out[i] == commands[i]);
        }
    }
}

/// The commands of a log are merged into entries with distinct ids: every
/// command has one entry.
pub proof fn lemma_commands_distinct(lines: Seq<Option<EventRecord>>, n: int)
    ensures
        distinct_commands(commands_after(Seq::empty(), lines, n)),
    decreases n,
{
    if 0 < n <= lines.len() {
        lemma_commands_distinct(lines, n - 1);
        match command_of(lines[n - 1]) {
            Some(used) => {
                lemma_merged_distinct(commands_after(Seq::empty(), lines, n - 1), used);
            },
            None => {},
        }
    }
}

/// Whether `counts` is the report of the lines `taken`: the tally of the
/// lines, with the commands ranked and cut to the twenty most used.
pub open spec fn reports(counts: EventCount, taken: Seq<Option<EventRecord>>) -> bool {
    &&& counts.all_events == decoded_count(taken, taken.len() as int)
    &&& forall|kind: EventKind|
        #[trigger] counts.named(kind) == kind_count(taken, kind, taken.len() as int)
    &&& counts.most_used_commands@ == top(
        commands_after(Seq::empty(), taken, taken.len() as int),
        COMMAND_LIMIT as nat,
    )
}

/// The same lines give the same report: nothing in a report depends on
/// anything but the lines and their order.
pub proof fn lemma_event_report_determined(
    first: EventCount,
    second: EventCount,
    taken: Seq<Option<EventRecord>>,
)
    requires
        reports(first, taken),
        reports(second, taken),
    ensures
        first.all_events == second.all_events,
        forall|kind: EventKind| first.named(kind) == second.named(kind),
        first.most_used_commands@ == second.most_used_commands@,
{
    assert forall|kind: EventKind| first.named(kind) == second.named(kind) by {
        assert(first.named(kind) == kind_count(taken, kind, taken.len() as int));
        assert(second.named(kind) == kind_count(taken, kind, taken.len() as int));
    }
}

/// The command ranking of a report holds at most twenty commands, never
/// increases in count, and keeps ties in the order of discovery.
pub proof fn lemma_command_ranking(counts: EventCount, taken: Seq<Option<EventRecord>>, c: u32)
    requires
        reports(counts, taken),
    ensures
        counts.most_used_commands@.len() <= COMMAND_LIMIT,
        crate::ranking::descending(counts.most_used_commands@),
        crate::ranking::with_count(counts.most_used_commands@, c).is_prefix_of(
            crate::ranking::with_count(
                commands_after(Seq::empty(), taken, taken.len() as int),
                c,
            ),
        ),
{
    let all = commands_after(Seq::empty(), taken, taken.len() as int);
    crate::ranking::lemma_top_len(all, COMMAND_LIMIT as nat);
    crate::ranking::lemma_top_descending(all, COMMAND_LIMIT as nat);
    crate::ranking::lemma_top_ties_in_order(all, COMMAND_LIMIT as nat, c);
}

/// Every decoded line counts once in all, and no named counter, nor all of
/// them together on one line, counts more than that: an event of a type
/// outside the vocabulary is counted in all and nowhere else.
pub proof fn lemma_kind_count_bounded(lines: Seq<Option<EventRecord>>, kind: EventKind, n: int)
    requires
        0 <= n <= lines.len(),
    ensures
        0 <= kind_count(lines, kind, n) <= decoded_count(lines, n) <= n,
    decreases n,
{
    if n > 0 {
        lemma_kind_count_bounded(lines, kind, n - 1);
    }
}

/// How many of the first `n` of `lines` are uses of the command `id` that
/// decoded with their details.
pub open spec fn uses_of(lines: Seq<Option<EventRecord>>, id: Seq<char>, n: int) -> int
    decreases n,
{
    if n <= 0 || n > lines.len() {
        0
    } else {
        uses_of(lines, id, n - 1) + if command_of(lines[n - 1]) matches Some(used)
            && used.command_id@ == id {
            1int
        } else {
            0int
        }
    }
}

/// The ids of the commands that the first `n` of `lines` use.
pub open spec fn used_ids(lines: Seq<Option<EventRecord>>, n: int) -> Set<Seq<char>> {
    Set::new(|id: Seq<char>| uses_of(lines, id, n) > 0)
}

/// The ids of `commands`, in order.
pub open spec fn command_ids(commands: Seq<MostUsedCommand>) -> Seq<Seq<char>> {
    commands.map_values(|command: MostUsedCommand| command.command_id@)
}

/// A command is used no more often than events were decoded.
pub proof fn lemma_uses_bounded(lines: Seq<Option<EventRecord>>, id: Seq<char>, n: int)
    requires
        0 <= n <= lines.len(),
    ensures
        0 <= uses_of(lines, id, n) <= decoded_count(lines, n),
    decreases n,
{
    if n > 0 {
        lemma_uses_bounded(lines, id, n - 1);
    }
}

/// An entry is fixed by where its id stands first.
proof fn lemma_command_position_unique(
    commands: Seq<MostUsedCommand>,
    id: Seq<char>,
    from: int,
    at: int,
)
    requires
        0 <= from <= at < commands.len(),
        commands[at].command_id@ == id,
        forall|i: int| from <= i < at ==> commands[i].command_id@ != id,
    ensures
        command_position(commands, id, from) == at,
    decreases at - from,
{
    if from < at {
        lemma_command_position_unique(commands, id, from + 1, at);
    }
}

/// The count of a command's entry is the number of its uses, and a command
/// has an entry exactly when it was used.
pub proof fn lemma_command_counts(lines: Seq<Option<EventRecord>>, id: Seq<char>, n: int)
    requires
        0 <= n <= lines.len(),
        decoded_count(lines, n) <= u32::MAX,
    ensures
        ({
            let commands = commands_after(Seq::empty(), lines, n);
            let at = command_position(commands, id, 0);
            if at >= 0 {
                &&& at < commands.len()
                &&& commands[at].command_id@ == id
                &&& commands[at].count == uses_of(lines, id, n)
                &&& uses_of(lines, id, n) > 0
            } else {
                uses_of(lines, id, n) == 0
            }
        }),
    decreases n,
{
    let out = commands_after(Seq::empty(), lines, n);
    lemma_command_position(out, id, 0);
    if n > 0 {
        let prev = commands_after(Seq::empty(), lines, n - 1);
        lemma_decoded_count_monotone(lines, n - 1, n);
        lemma_command_counts(lines, id, n - 1);
        lemma_command_position(prev, id, 0);
        lemma_uses_bounded(lines, id, n);
        let before = command_position(prev, id, 0);
        match command_of(lines[n - 1]) {
            Some(used) => {
                let q = command_position(prev, used.command_id@, 0);
                lemma_command_position(prev, used.command_id@, 0);
                lemma_command_counts(lines, used.command_id@, n - 1);
                if q >= 0 {
                    assert forall|i: int| 0 <= i < out.len() implies (#[trigger] out[i]).command_id@
                        == prev[i].command_id@ by {}
                    if before >= 0 {
                        lemma_command_position_unique(out, id, 0, before);
                    }
                } else {
                    if used.command_id@ == id {
                        lemma_command_position_unique(out, id, 0, prev.len() as int);
                    } else if before >= 0 {
                        lemma_command_position_unique(out, id, 0, before);
                    }
                }
            },
            None => {},
        }
    }
}

/// There is one entry for each command that was used: the entries are as
/// many as the ids in use.
pub proof fn lemma_one_entry_per_command(lines: Seq<Option<EventRecord>>, n: int)
    requires
        0 <= n <= lines.len(),
        decoded_count(lines, n) <= u32::MAX,
    ensures
        command_ids(commands_after(Seq::empty(), lines, n)).to_set() == used_ids(lines, n),
        used_ids(lines, n).finite(),
        commands_after(Seq::empty(), lines, n).len() == used_ids(lines, n).len(),
{
    let commands = commands_after(Seq::empty(), lines, n);
    let ids = command_ids(commands);
    lemma_commands_distinct(lines, n);
    assert(ids.no_duplicates()) by {
        assert forall|i: int, j: int| 0 <= i < ids.len() && 0 <= j < ids.len() && i != j implies ids[i]
            != ids[j] by {
            if i < j {
                assert(commands[i].command_id@ != commands[j].command_id@);
            } else {
                assert(commands[j].command_id@ != commands[i].command_id@);
            }
        }
    }
    assert forall|id: Seq<char>| ids.to_set().contains(id) <==> used_ids(lines, n).contains(id) by {
        lemma_command_counts(lines, id, n);
        lemma_command_position(commands, id, 0);
        let at = command_position(commands, id, 0);
        if at >= 0 {
            assert(ids[at] == id);
        } else if ids.contains(id) {
            let i = choose|i: int| 0 <= i < ids.len() && ids[i] == id;
            assert(commands[i].command_id@ == id);
        }
    }
    assert(ids.to_set() =~= used_ids(lines, n));
    ids.unique_seq_to_set();
    vstd::seq_lib::seq_to_set_is_finite(ids);
}

/// The command ranking of a report has as many entries as commands were
/// used, but no more than twenty; the count of each entry is the number of
/// uses of its command; and a command that is left out was used no more
/// often than any command that is ranked.
pub proof fn lemma_command_ranking_complete(counts: EventCount, taken: Seq<Option<EventRecord>>)
    requires
        reports(counts, taken),
    ensures
        used_ids(taken, taken.len() as int).finite(),
        counts.most_used_commands@.len() == if used_ids(taken, taken.len() as int).len()
            < COMMAND_LIMIT {
            used_ids(taken, taken.len() as int).len()
        } else {
            COMMAND_LIMIT as nat
        },
        forall|i: int|
            0 <= i < counts.most_used_commands@.len() ==> (
            #[trigger] counts.most_used_commands@[i]).count == uses_of(
                taken,
                counts.most_used_commands@[i].command_id@,
                taken.len() as int,
            ),
        forall|i: int, j: int|
            0 <= i < j < counts.most_used_commands@.len() ==> (
            #[trigger] counts.most_used_commands@[i]).command_id@ != (
            #[trigger] counts.most_used_commands@[j]).command_id@,
        forall|id: Seq<char>, i: int|
            #![trigger uses_of(taken, id, taken.len() as int), counts.most_used_commands@[i]]
            0 <= i < counts.most_used_commands@.len() ==> command_ids(
                counts.most_used_commands@,
            ).contains(id) || uses_of(taken, id, taken.len() as int)
                <= counts.most_used_commands@[i].count,
{
    let n = taken.len() as int;
    let all = commands_after(Seq::empty(), taken, n);
    let ranking = counts.most_used_commands@;
    lemma_one_entry_per_command(taken, n);
    lemma_commands_distinct(taken, n);
    crate::ranking::lemma_top_len(all, COMMAND_LIMIT as nat);
    crate::ranking::lemma_top_members(all, COMMAND_LIMIT as nat);
    crate::ranking::lemma_ranked_len(all);
    assert forall|i: int| 0 <= i < ranking.len() implies (#[trigger] ranking[i]).count == uses_of(
        taken,
        ranking[i].command_id@,
        n,
    ) by {
        let at = choose|at: int| 0 <= at < all.len() && all[at] == ranking[i];
        lemma_command_counts(taken, ranking[i].command_id@, n);
        lemma_command_position(all, ranking[i].command_id@, 0);
        let found = command_position(all, ranking[i].command_id@, 0);
        if found < at {
            assert(all[found].command_id@ != all[at].command_id@);
        } else if at < found {
            assert(all[at].command_id@ != all[found].command_id@);
        }
    }
    assert forall|i: int, j: int| 0 <= i < j < ranking.len() implies (#[trigger] ranking[i]).command_id@
        != (#[trigger] ranking[j]).command_id@ by {
        lemma_top_distinct(all, i, j);
    }
    assert forall|id: Seq<char>, i: int|
        #![trigger uses_of(taken, id, n), ranking[i]]
        0 <= i < ranking.len() implies command_ids(ranking).contains(id) || uses_of(taken, id, n)
            <= ranking[i].count by {
        lemma_command_counts(taken, id, n);
        lemma_uses_bounded(taken, id, n);
        let at = command_position(all, id, 0);
        if at >= 0 {
            crate::ranking::lemma_top_keeps_the_highest(all, COMMAND_LIMIT as nat, at);
            if ranking.contains(all[at]) {
                let p = choose|p: int| 0 <= p < ranking.len() && ranking[p] == all[at];
                assert(command_ids(ranking)[p] == id);
            }
        }
    }
}

/// Two entries of the ranking of commands with distinct ids are for
/// different commands.
proof fn lemma_top_distinct(all: Seq<MostUsedCommand>, i: int, j: int)
    requires
        distinct_commands(all),
        0 <= i < j < top(all, COMMAND_LIMIT as nat).len(),
    ensures
        top(all, COMMAND_LIMIT as nat)[i].command_id@ != top(
            all,
            COMMAND_LIMIT as nat,
        )[j].command_id@,
{
    let ranking = crate::ranking::ranked(all);
    crate::ranking::lemma_ranked_len(all);
    lemma_ranked_distinct(all);
    assert(top(all, COMMAND_LIMIT as nat)[i] == ranking[i]);
    assert(top(all, COMMAND_LIMIT as nat)[j] == ranking[j]);
}

/// Ranking commands with distinct ids leaves their ids distinct.
proof fn lemma_ranked_distinct(all: Seq<MostUsedCommand>)
    requires
        distinct_commands(all),
    ensures
        distinct_commands(crate::ranking::ranked(all)),
    decreases all.len(),
{
    if all.len() > 0 {
        let head = all.drop_last();
        let rest = crate::ranking::ranked(head);
        let x = all.last();
        let p = crate::ranking::slot(rest, x.count, 0);
        assert(distinct_commands(head)) by {
            assert forall|i: int, j: int| 0 <= i < j < head.len() implies (#[trigger] head[i]).command_id@
                != (#[trigger] head[j]).command_id@ by {
                assert(head[i] == all[i] && head[j] == all[j]);
            }
        }
        lemma_ranked_distinct(head);
        crate::ranking::lemma_ranked_members(head);
        crate::ranking::lemma_slot_bounds(rest, x.count, 0);
        let out = rest.insert(p, x);
        assert forall|i: int, j: int| 0 <= i < j < out.len() implies (#[trigger] out[i]).command_id@
            != (#[trigger] out[j]).command_id@ by {
            let a = if i < p {
                rest[i]
            } else if i == p {
                x
            } else {
                rest[i - 1]
            };
            let b = if j < p {
                rest[j]
            } else if j == p {
                x
            } else {
                rest[j - 1]
            };
            assert(out[i] == a && out[j] == b);
            if i == p {
                let m = choose|m: int| 0 <= m < head.len() && head[m] == rest[j - 1];
                assert(all[m].command_id@ != all[all.len() - 1].command_id@);
            } else if j == p {
                let m = choose|m: int| 0 <= m < head.len() && head[m] == rest[i];
                assert(all[m].command_id@ != all[all.len() - 1].command_id@);
            }
        }
    }
}

} // verus!
