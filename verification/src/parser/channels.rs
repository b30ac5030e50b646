//! Channel aggregation: what each channel adds to the totals, and the final
//! counts and rankings of the report.

use crate::error::ExtractError;
use crate::models::channel::{TopChannel, TopDM};
use crate::models::discord_models::DChannel;
use crate::models::message::{Message, WordCount};
use crate::models::user::DUser;
use crate::models::user_data::{histogram_total, UserData, HOURS};
use crate::parser::stats::{
    bucket_of, channel_entry, dm_entry, dm_partner, first_other, hours_after, is_counted, is_long,
    lemma_bucket_bound, lemma_count_sum_push, lemma_hours_after, lemma_length_sum_monotone,
    lemma_long_count_monotone, lemma_long_total_monotone, lemma_recorded_keeps, length_sum,
    long_count, long_total, profile_id, record_words, unparsed_among, words_after, StatsModel,
    SHORT_TOKEN_CHARS,
};
use crate::parser::Parser;
use crate::pattern::{pattern_accepted, pattern_matches, Pattern};
use crate::ranking::{lemma_top_len, lemma_top_members, top, top_ranked};
use crate::text::char_length;
use crate::timestamps::{parse_hour, TimestampFormat};
use crate::words::WordTable;
use vstd::prelude::*;

verus! {

/// How many entries a ranking of channels or of tokens keeps.
pub const RANKING_LIMIT: usize = 10;

/// The shape of an emote token: `<:NAME:DIGITS>` or `<a:NAME:DIGITS>`.
pub const EMOTE_PATTERN: &'static str = r"<(a?):([^:]+):(\d+)>";

/// Whether every ranked word and emote of a report has more than five
/// characters and was seen at least once.
pub open spec fn ranked_tokens_long(report: UserData) -> bool {
    &&& forall|i: int|
        0 <= i < report.favorite_words@.len() ==> (#[trigger] report.favorite_words@[i]).word@.len()
            > SHORT_TOKEN_CHARS && report.favorite_words@[i].count >= 1
    &&& forall|i: int|
        0 <= i < report.favorite_emotes@.len() ==> (
        #[trigger] report.favorite_emotes@[i]).word@.len() > SHORT_TOKEN_CHARS
            && report.favorite_emotes@[i].count >= 1
}

/// What was read and decoded for one channel: the metadata, absent when the
/// file is missing or malformed; the messages, none when the file is missing
/// or malformed.
pub struct ChannelSource {
    pub channel: Option<DChannel>,
    pub messages: Vec<Message>,
}

/// The state after one source: a channel without metadata is skipped.
pub open spec fn absorb_source(
    m: StatsModel,
    own: Option<Seq<char>>,
    source: ChannelSource,
    format: TimestampFormat,
) -> StatsModel {
    match source.channel {
        Some(channel) => m.absorb(own, channel, source.messages@, format),
        None => m,
    }
}

/// The state after the first `n` of `sources`.
pub open spec fn absorb_all(
    m: StatsModel,
    own: Option<Seq<char>>,
    sources: Seq<ChannelSource>,
    format: TimestampFormat,
    n: int,
) -> StatsModel
    decreases n,
{
    if n <= 0 || n > sources.len() {
        m
    } else {
        absorb_source(absorb_all(m, own, sources, format, n - 1), own, sources[n - 1], format)
    }
}

/// Whether a source needs room in the counters: it does when its channel
/// counts.
pub open spec fn needs_room(source: ChannelSource, own: Option<Seq<char>>) -> bool {
    source.channel matches Some(channel) && is_counted(channel, own)
}

/// Whether the counters can take each of the first `n` of `sources` in
/// turn.
pub open spec fn room_for_all(
    m: StatsModel,
    own: Option<Seq<char>>,
    sources: Seq<ChannelSource>,
    format: TimestampFormat,
    n: int,
) -> bool
    decreases n,
{
    if n <= 0 || n > sources.len() {
        true
    } else {
        &&& room_for_all(m, own, sources, format, n - 1)
        &&& needs_room(sources[n - 1], own) ==> absorb_all(m, own, sources, format, n - 1).has_room(
            sources[n - 1].messages@,
        )
    }
}

/// The test for being an emote by `pattern`.
pub open spec fn emote_test(pattern: Seq<char>) -> spec_fn(WordCount) -> bool {
    |entry: WordCount| pattern_matches(pattern, entry.word@)
}

/// The test for being a plain word by `pattern`: not an emote.
pub open spec fn word_test(pattern: Seq<char>) -> spec_fn(WordCount) -> bool {
    |entry: WordCount| !pattern_matches(pattern, entry.word@)
}

/// The ranking of the emotes among `words`.
pub open spec fn top_emotes(words: Seq<WordCount>, pattern: Seq<char>) -> Seq<WordCount> {
    top(words.filter(emote_test(pattern)), RANKING_LIMIT as nat)
}

/// The ranking of the plain words among `words`.
pub open spec fn top_words(words: Seq<WordCount>, pattern: Seq<char>) -> Seq<WordCount> {
    top(words.filter(word_test(pattern)), RANKING_LIMIT as nat)
}

/// What the totals of `stats` make of a report, apart from the two token
/// rankings: the counts, the histogram and the channel rankings are those of
/// `stats`; profile and guilds stay as they were.
pub open spec fn totals_reported(before: UserData, after: UserData, stats: StatsModel) -> bool {
    &&& after.user == before.user
    &&& after.guilds == before.guilds
    &&& after.channel_count == stats.channels.len()
    &&& after.dm_channel_count == stats.dms.len()
    &&& after.message_count == stats.message_total()
    &&& after.character_count == stats.characters
    &&& after.hours_values@ == stats.hours
    &&& after.top_channels@ == top(stats.channels, RANKING_LIMIT as nat)
    &&& after.top_dms@ == top(stats.dms, RANKING_LIMIT as nat)
}

/// The two token rankings of a report, given the emote pattern: the emotes
/// among the tokens and the rest, each ranked on its own.
pub open spec fn tokens_partitioned(
    after: UserData,
    stats: StatsModel,
    pattern: Seq<char>,
) -> bool {
    &&& after.favorite_emotes@ == top_emotes(stats.words, pattern)
    &&& after.favorite_words@ == top_words(stats.words, pattern)
}

/// What the channels seen so far add up to.
pub struct ChannelStats {
    pub word_counts: WordTable,
    pub channel_message_counts: Vec<TopChannel>,
    pub dm_message_counts: Vec<TopDM>,
    pub message_total: u32,
    pub character_count: u32,
    pub hours_values: Vec<u32>,
    pub word_occurrences: u32,
    pub unparsed: Ghost<nat>,
}

impl View for ChannelStats {
    type V = StatsModel;

    open spec fn view(&self) -> StatsModel {
        StatsModel {
            words: self.word_counts@,
            channels: self.channel_message_counts@,
            dms: self.dm_message_counts@,
            characters: self.character_count as int,
            hours: self.hours_values@,
            unparsed: self.unparsed@,
            occurrences: self.word_occurrences as int,
        }
    }
}

impl ChannelStats {
    /// The state is one that aggregation reaches, and the running total
    /// agrees with the entries.
    pub open spec fn wf(&self) -> bool {
        &&& self.word_counts.wf()
        &&& self@.consistent()
        &&& self.message_total == self@.message_total()
        &&& self.channel_message_counts@.len() <= u32::MAX
        &&& self.dm_message_counts@.len() <= u32::MAX
    }

    /// The state before any channel.
    pub fn new() -> (r: Self)
        ensures
            r.wf(),
            r@ == StatsModel::initial(),
    {
        let mut hours: Vec<u32> = Vec::new();
        while hours.len() < HOURS
            invariant
                hours@.len() <= HOURS,
                forall|i: int| 0 <= i < hours@.len() ==> hours@[i] == 0,
                histogram_total(hours@) == 0,
            decreases HOURS - hours@.len(),
        {
            let ghost before = hours@;
            hours.push(0);
            assert(hours@.drop_last() =~= before);
            proof {
                lemma_bucket_sum_prefix(hours@, before, before.len() as int);
            }
        }
        assert(hours@ =~= Seq::new(HOURS as nat, |i: int| 0u32));
        let r = ChannelStats {
            word_counts: WordTable::new(),
            channel_message_counts: Vec::new(),
            dm_message_counts: Vec::new(),
            message_total: 0,
            character_count: 0,
            hours_values: hours,
            word_occurrences: 0,
            unparsed: Ghost(0),
        };
        assert(r@.words =~= Seq::empty());
        assert(r@.channels =~= Seq::empty());
        assert(r@.dms =~= Seq::empty());
        r
    }

    /// Whether every counter can take what `messages` add.
    pub fn can_absorb(&self, messages: &Vec<Message>) -> (b: bool)
        requires
            self.wf(),
        ensures
            b == self@.has_room(messages@),
    {
        let n = messages.len();
        let limit: u64 = 0xffff_ffff;
        if self.channel_message_counts.len() >= 0xffff_ffff || self.dm_message_counts.len()
            >= 0xffff_ffff {
            return false;
        }
        if n > 0xffff_ffff {
            return false;
        }
        if self.message_total as u64 + n as u64 > limit {
            return false;
        }
        let mut characters: u64 = self.character_count as u64;
        let mut occurrences: u64 = self.word_occurrences as u64;
        let mut i: usize = 0;
        while i < n
            invariant
                i <= n == messages.len(),
                limit == u32::MAX,
                characters == self.character_count + length_sum(messages@, i as int),
                occurrences == self.word_occurrences + long_total(messages@, i as int),
                characters <= limit,
                occurrences <= limit,
            decreases n - i,
        {
            proof {
                lemma_length_sum_monotone(messages@, i + 1, n as int);
                lemma_long_total_monotone(messages@, i + 1, n as int);
            }
            characters = characters + messages[i].length as u64;
            if characters > limit {
                return false;
            }
            let words = &messages[i].words;
            let mut j: usize = 0;
            let ghost base = occurrences;
            while j < words.len()
                invariant
                    j <= words.len(),
                    i < n == messages.len(),
                    words == &messages[i as int].words,
                    limit == u32::MAX,
                    occurrences == base + long_count(words@, j as int),
                    base == self.word_occurrences + long_total(messages@, i as int),
                    occurrences <= limit,
                    self.word_occurrences + long_total(messages@, i + 1) <= self.word_occurrences
                        + long_total(messages@, n as int),
                decreases words.len() - j,
            {
                proof {
                    lemma_long_count_monotone(words@, j + 1, words@.len() as int);
                }
                if char_length(words[j].as_str()) > SHORT_TOKEN_CHARS {
                    occurrences = occurrences + 1;
                    if occurrences > limit {
                        return false;
                    }
                }
                j += 1;
            }
            i += 1;
        }
        true
    }
}

impl<'a> Parser<'a> {
    /// The partner of a direct conversation, if it can be told: the
    /// recipient that is not the profile.
    pub fn find_partner(channel: &DChannel, profile: &Option<DUser>) -> (r: Option<String>)
        ensures
            r == dm_partner(*channel, profile_id(*profile)),
    {
        match (&channel.recipients, profile) {
            (Some(recipients), Some(user)) => {
                if recipients.len() != 2 {
                    return None;
                }
                assert(first_other(recipients@, user.id@, 2) is None);
                if !(recipients[0] == user.id) {
                    Some(recipients[0].clone())
                } else if !(recipients[1] == user.id) {
                    assert(first_other(recipients@, user.id@, 1) == Some(recipients@[1]));
                    Some(recipients[1].clone())
                } else {
                    assert(first_other(recipients@, user.id@, 1) is None);
                    None
                }
            },
            _ => None,
        }
    }

    /// Adds one channel with its messages to the totals. A direct
    /// conversation without a known partner adds nothing. Cancellation is
    /// checked once per message of a channel that counts, so that there is
    /// no error without such a message; when cancellation is observed the
    /// totals are of no further use.
    pub fn absorb_channel(
        &self,
        stats: &mut ChannelStats,
        profile: &Option<DUser>,
        channel: DChannel,
        messages: &Vec<Message>,
        format: TimestampFormat,
    ) -> (r: Result<(), ExtractError>)
        requires
            old(stats).wf(),
            is_counted(channel, profile_id(*profile)) ==> old(stats)@.has_room(messages@),
        ensures
            final(stats).wf(),
            messages@.len() == 0 || !is_counted(channel, profile_id(*profile)) ==> r is Ok,
            match r {
                Ok(()) => final(stats)@ == old(stats)@.absorb(
                    profile_id(*profile),
                    channel,
                    messages@,
                    format,
                ),
                Err(e) => e is Cancelled,
            },
    {
        let is_dm = match &channel.recipients {
            Some(recipients) => recipients.len() == 2,
            None => false,
        };
        let partner = Parser::find_partner(&channel, profile);
        if is_dm && partner.is_none() {
            return Ok(());
        }
        let n = messages.len();
        let ghost start = stats@;
        let mut i: usize = 0;
        proof {
            lemma_hours_after(start.hours, messages@, format, 0);
        }
        while i < n
            invariant
                i <= n == messages.len(),
                is_counted(channel, profile_id(*profile)),
                start == old(stats)@,
                start.consistent(),
                start.has_room(messages@),
                old(stats).wf(),
                stats.word_counts.wf(),
                stats.channel_message_counts == old(stats).channel_message_counts,
                stats.dm_message_counts == old(stats).dm_message_counts,
                stats.message_total == old(stats).message_total,
                stats.word_counts@ == words_after(start.words, messages@, i as int),
                stats.character_count == start.characters + length_sum(messages@, i as int),
                stats.hours_values@ == hours_after(start.hours, messages@, format, i as int),
                stats.unparsed@ == start.unparsed + unparsed_among(messages@, format, i as int),
                stats.word_occurrences == start.occurrences + long_total(messages@, i as int),
                stats.hours_values@.len() == HOURS,
                histogram_total(stats.hours_values@) + unparsed_among(messages@, format, i as int)
                    == histogram_total(start.hours) + i,
                forall|k: int|
                    0 <= k < stats.word_counts@.len() ==> is_long(
                        (#[trigger] stats.word_counts@[k]).word@,
                    ) && 1 <= stats.word_counts@[k].count
                && stats.word_counts@[k].count <= stats.word_occurrences,
            decreases n - i,
        {
            match self.check_cancellation_token() {
                Err(e) => {
                    *stats = ChannelStats::new();
                    return Err(e);
                },
                Ok(()) => {},
            }
            let message = &messages[i];
            proof {
                lemma_length_sum_monotone(messages@, i + 1, n as int);
                lemma_long_total_monotone(messages@, i + 1, n as int);
                lemma_long_total_monotone(messages@, i as int, i + 1);
                lemma_hours_after(start.hours, messages@, format, i + 1);
            }
            stats.character_count = stats.character_count + message.length;
            match parse_hour(message.timestamp.as_str(), format) {
                Some(hour) => {
                    let h = hour as usize;
                    proof {
                        lemma_bucket_bound(stats.hours_values@, HOURS as int, h as int);
                    }
                    let bucket = stats.hours_values[h];
                    stats.hours_values.set(h, bucket + 1);
                },
                None => {
                    proof {
                        stats.unparsed@ = stats.unparsed@ + 1;
                    }
                },
            }
            let words = &message.words;
            let ghost table = stats.word_counts@;
            let ghost seen = stats.word_occurrences as int;
            let ghost frozen = *stats;
            let mut j: usize = 0;
            while j < words.len()
                invariant
                    j <= words.len(),
                    i < n == messages.len(),
                    words == &messages[i as int].words,
                    stats.word_counts.wf(),
                    stats.channel_message_counts == frozen.channel_message_counts,
                    stats.dm_message_counts == frozen.dm_message_counts,
                    stats.message_total == frozen.message_total,
                    stats.character_count == frozen.character_count,
                    stats.hours_values == frozen.hours_values,
                    stats.unparsed == frozen.unparsed,
                    stats.word_counts@ == record_words(table, words@, j as int),
                    stats.word_occurrences == seen + long_count(words@, j as int),
                    seen + long_count(words@, words@.len() as int) <= u32::MAX,
                    0 <= seen,
                    forall|k: int|
                        0 <= k < stats.word_counts@.len() ==> is_long(
                            (#[trigger] stats.word_counts@[k]).word@,
                        ) && 1 <= stats.word_counts@[k].count
                && stats.word_counts@[k].count <= stats.word_occurrences,
                decreases words.len() - j,
            {
                proof {
                    lemma_long_count_monotone(words@, j + 1, words@.len() as int);
                    lemma_long_count_monotone(words@, 0, j as int);
                }
                if char_length(words[j].as_str()) > SHORT_TOKEN_CHARS {
                    let word = words[j].clone();
                    proof {
                        lemma_recorded_keeps(
                            stats.word_counts@,
                            word,
                            stats.word_occurrences as int,
                        );
                        crate::words::lemma_position(stats.word_counts@, word@, 0);
                    }
                    stats.word_counts.record(word);
                    stats.word_occurrences = stats.word_occurrences + 1;
                }
                j += 1;
            }
            i += 1;
        }
        let count = n as u32;
        proof {
            stats.word_counts.lemma_distinct();
            lemma_count_sum_push(start.channels, channel_entry(channel, n as nat));
            lemma_count_sum_push(start.dms, dm_entry(channel, partner->0, n as nat));
        }
        if is_dm {
            match partner {
                Some(dm_user_id) => {
                    stats.dm_message_counts.push(
                        TopDM { id: channel.id, dm_user_id, message_count: count },
                    );
                },
                None => {},
            }
        } else {
            let (guild_name, guild_id) = match channel.guild {
                Some(guild) => (Some(guild.name), Some(guild.id)),
                None => (None, None),
            };
            stats.channel_message_counts.push(
                TopChannel {
                    id: channel.id,
                    name: channel.name,
                    message_count: count,
                    guild_name,
                    guild_id,
                },
            );
        }
        stats.message_total = stats.message_total + count;
        Ok(())
    }
}

impl<'a> Parser<'a> {
    /// Splits the table into emotes and plain words, keeping the order of
    /// discovery in each part.
    pub fn partition_tokens(re: &Pattern, entries: Vec<WordCount>) -> (r: (
        Vec<WordCount>,
        Vec<WordCount>,
    ))
        ensures
            r.0@ == entries@.filter(emote_test(re.source())),
            r.1@ == entries@.filter(word_test(re.source())),
    {
        let mut emotes: Vec<WordCount> = Vec::new();
        let mut words: Vec<WordCount> = Vec::new();
        let ghost all = entries@;
        let ghost is_emote = emote_test(re.source());
        let ghost is_word = word_test(re.source());
        proof {
            crate::sequences::lemma_filter_none(all.take(0), is_emote);
            crate::sequences::lemma_filter_none(all.take(0), is_word);
        }
        for entry in it: entries
            invariant
                it.seq() == all,
                is_emote == emote_test(re.source()),
                is_word == word_test(re.source()),
                emotes@ == all.take(it.index() as int).filter(is_emote),
                words@ == all.take(it.index() as int).filter(is_word),
        {
            let ghost before = all.take(it.index() as int);
            proof {
                assert(all.take(it.index() + 1) =~= before.push(entry));
                before.lemma_filter_push(entry, is_emote);
                before.lemma_filter_push(entry, is_word);
            }
            if re.is_match(entry.word.as_str()) {
                emotes.push(entry);
            } else {
                words.push(entry);
            }
        }
        assert(all.take(all.len() as int) =~= all);
        (emotes, words)
    }

    /// Writes the totals and rankings into the report, given the compiled
    /// emote pattern.
    pub fn finalize_with(extracted_data: &mut UserData, stats: ChannelStats, emote: &Pattern)
        requires
            stats.wf(),
        ensures
            final(extracted_data).hours_values@.len() == HOURS,
            histogram_total(final(extracted_data).hours_values@) + stats@.unparsed
                == final(extracted_data).message_count,
            totals_reported(*old(extracted_data), *final(extracted_data), stats@),
            tokens_partitioned(*final(extracted_data), stats@, emote.source()),
            ranked_tokens_long(*final(extracted_data)),
    {
        let ghost model = stats@;
        let ChannelStats {
            word_counts,
            channel_message_counts,
            dm_message_counts,
            message_total,
            character_count,
            hours_values,
            word_occurrences: _,
            unparsed: _,
        } = stats;
        extracted_data.channel_count = channel_message_counts.len() as u32;
        extracted_data.dm_channel_count = dm_message_counts.len() as u32;
        extracted_data.message_count = message_total;
        extracted_data.character_count = character_count;
        extracted_data.hours_values = hours_values;
        extracted_data.top_channels = top_ranked(channel_message_counts, RANKING_LIMIT);
        extracted_data.top_dms = top_ranked(dm_message_counts, RANKING_LIMIT);
        let (emotes, words) = Parser::partition_tokens(emote, word_counts.into_entries());
        extracted_data.favorite_emotes = top_ranked(emotes, RANKING_LIMIT);
        extracted_data.favorite_words = top_ranked(words, RANKING_LIMIT);
        proof {
            lemma_ranked_tokens_long(*extracted_data, model, emote.source());
        }
    }

    /// Writes the totals and rankings into the report. The emote pattern is
    /// compiled here: the report is written exactly when the pattern compiler
    /// accepts it, and stays as it was otherwise.
    pub fn finalize_channel_stats(&self, extracted_data: &mut UserData, stats: ChannelStats) -> (r:
        Result<(), ExtractError>)
        requires
            stats.wf(),
        ensures
            r is Ok <==> pattern_accepted(EMOTE_PATTERN@),
            match r {
                Ok(()) => {
                    &&& final(extracted_data).hours_values@.len() == HOURS
                    &&& histogram_total(final(extracted_data).hours_values@) + stats@.unparsed
                        == final(extracted_data).message_count
                    &&& totals_reported(*old(extracted_data), *final(extracted_data), stats@)
                    &&& tokens_partitioned(*final(extracted_data), stats@, EMOTE_PATTERN@)
                    &&& ranked_tokens_long(*final(extracted_data))
                },
                Err(e) => e is Pattern && *final(extracted_data) == *old(extracted_data),
            },
    {
        match Pattern::compile(EMOTE_PATTERN) {
            Some(re) => {
                Parser::finalize_with(extracted_data, stats, &re);
                Ok(())
            },
            None => Err(ExtractError::Pattern),
        }
    }
}

impl<'a> Parser<'a> {
    /// Whether a channel counts at all: a direct conversation counts only
    /// with a known partner.
    pub fn counts(channel: &DChannel, profile: &Option<DUser>) -> (b: bool)
        ensures
            b == is_counted(*channel, profile_id(*profile)),
    {
        let is_dm = match &channel.recipients {
            Some(recipients) => recipients.len() == 2,
            None => false,
        };
        !is_dm || Parser::find_partner(channel, profile).is_some()
    }

    /// What was read and decoded for one channel, as a source: messages that
    /// are missing or did not decode count as none.
    pub fn source_of(channel: Option<DChannel>, messages: Option<Vec<Message>>) -> (source:
        ChannelSource)
        ensures
            source.channel == channel,
            match messages {
                Some(list) => source.messages == list,
                None => source.messages@.len() == 0,
            },
    {
        match messages {
            Some(list) => ChannelSource { channel, messages: list },
            None => ChannelSource { channel, messages: Vec::new() },
        }
    }

    /// Adds one source to the totals: a channel without metadata is
    /// skipped; a channel that counts is added if the counters have room for
    /// it, and is refused, before anything else happens, if they have not.
    /// Cancellation is checked once per message of a channel that counts.
    pub fn absorb_source(
        &self,
        stats: &mut ChannelStats,
        profile: &Option<DUser>,
        source: ChannelSource,
        format: TimestampFormat,
    ) -> (r: Result<(), ExtractError>)
        requires
            old(stats).wf(),
        ensures
            final(stats).wf(),
            needs_room(source, profile_id(*profile)) && !old(stats)@.has_room(source.messages@)
                ==> (r matches Err(e) && e is Overflow),
            !needs_room(source, profile_id(*profile)) || (old(stats)@.has_room(source.messages@)
                && source.messages@.len() == 0) ==> r is Ok,
            match r {
                Ok(()) => {
                    &&& needs_room(source, profile_id(*profile)) ==> old(stats)@.has_room(
                        source.messages@,
                    )
                    &&& final(stats)@ == absorb_source(
                        old(stats)@,
                        profile_id(*profile),
                        source,
                        format,
                    )
                },
                Err(e) => e is Cancelled || (e is Overflow && needs_room(
                    source,
                    profile_id(*profile),
                ) && !old(stats)@.has_room(source.messages@)),
            },
    {
        let ChannelSource { channel, messages } = source;
        match channel {
            Some(channel) => {
                if Parser::counts(&channel, profile) && !stats.can_absorb(&messages) {
                    return Err(ExtractError::Overflow);
                }
                self.absorb_channel(stats, profile, channel, &messages, format)
            },
            None => Ok(()),
        }
    }

    /// Aggregates the channels of an archive into the report, given what
    /// was read and decoded for each channel, in the order of the plan. The
    /// profile of the report tells the partners of direct conversations.
    /// The emote pattern is compiled first: the pattern error comes exactly
    /// when the pattern compiler does not accept it. Cancellation is checked
    /// once per channel and once per message, so that without channels there
    /// is no other error. An error leaves the report as it was.
    pub fn load_channels(
        &self,
        extracted_data: &mut UserData,
        format: TimestampFormat,
        sources: Vec<ChannelSource>,
    ) -> (r: Result<(), ExtractError>)
        ensures
            (r matches Err(e) && e is Pattern) <==> !pattern_accepted(EMOTE_PATTERN@),
            sources@.len() == 0 ==> (r is Ok <==> pattern_accepted(EMOTE_PATTERN@)),
            ({
                let own = profile_id(old(extracted_data).user);
                let n = sources@.len() as int;
                let model = absorb_all(StatsModel::initial(), own, sources@, format, n);
                match r {
                    Ok(()) => {
                        &&& room_for_all(StatsModel::initial(), own, sources@, format, n)
                        &&& model.consistent()
                        &&& final(extracted_data).hours_values@.len() == HOURS
                        &&& histogram_total(final(extracted_data).hours_values@) + model.unparsed
                            == final(extracted_data).message_count
                        &&& totals_reported(*old(extracted_data), *final(extracted_data), model)
                        &&& tokens_partitioned(*final(extracted_data), model, EMOTE_PATTERN@)
                        &&& ranked_tokens_long(*final(extracted_data))
                    },
                    Err(e) => {
                        &&& *final(extracted_data) == *old(extracted_data)
                        &&& e is Cancelled || e is Pattern || (e is Overflow && !room_for_all(
                            StatsModel::initial(),
                            own,
                            sources@,
                            format,
                            n,
                        ))
                    },
                }
            }),
    {
        let emote = match Pattern::compile(EMOTE_PATTERN) {
            Some(re) => re,
            None => {
                return Err(ExtractError::Pattern);
            },
        };
        let mut stats = ChannelStats::new();
        let ghost all = sources@;
        let ghost own = profile_id(extracted_data.user);
        let ghost first = StatsModel::initial();
        for source in it: sources
            invariant
                it.seq() == all,
                all == sources@,
                pattern_accepted(EMOTE_PATTERN@),
                emote.source() == EMOTE_PATTERN@,
                *extracted_data == *old(extracted_data),
                own == profile_id(extracted_data.user),
                first == StatsModel::initial(),
                stats.wf(),
                stats@ == absorb_all(first, own, all, format, it.index() as int),
                room_for_all(first, own, all, format, it.index() as int),
        {
            let ghost done = it.index() as int;
            match self.check_cancellation_token() {
                Err(e) => {
                    return Err(e);
                },
                Ok(()) => {},
            }
            match self.absorb_source(&mut stats, &extracted_data.user, source, format) {
                Err(e) => {
                    proof {
                        if e is Overflow {
                            lemma_room_lost(first, own, all, format, done + 1, all.len() as int);
                        }
                    }
                    return Err(e);
                },
                Ok(()) => {},
            }
        }
        Parser::finalize_with(extracted_data, stats, &emote);
        Ok(())
    }
}

/// Every state that aggregation reaches from the start is consistent.
pub proof fn lemma_absorb_all_consistent(
    own: Option<Seq<char>>,
    sources: Seq<ChannelSource>,
    format: TimestampFormat,
    n: int,
)
    requires
        0 <= n <= sources.len(),
        room_for_all(StatsModel::initial(), own, sources, format, n),
    ensures
        absorb_all(StatsModel::initial(), own, sources, format, n).consistent(),
    decreases n,
{
    crate::parser::stats::lemma_initial_consistent();
    if n > 0 {
        lemma_absorb_all_consistent(own, sources, format, n - 1);
        let prev = absorb_all(StatsModel::initial(), own, sources, format, n - 1);
        match sources[n - 1].channel {
            Some(channel) => {
                if is_counted(channel, own) {
                    crate::parser::stats::lemma_absorb_consistent(
                        prev,
                        own,
                        channel,
                        sources[n - 1].messages@,
                        format,
                    );
                }
            },
            None => {},
        }
    }
}

/// Whether the timestamp of every message of the first `n` of `sources`
/// gives an hour.
pub open spec fn all_timestamps_parse(
    sources: Seq<ChannelSource>,
    format: TimestampFormat,
    n: int,
) -> bool {
    forall|i: int, j: int|
        0 <= i < n && i < sources.len() && 0 <= j < sources[i].messages@.len() ==> bucket_of(
            #[trigger] sources[i].messages@[j],
            format,
        ) is Some
}

/// When the timestamp of every message gives an hour, aggregation counts no
/// message as unparsed.
pub proof fn lemma_all_sources_parsed(
    own: Option<Seq<char>>,
    sources: Seq<ChannelSource>,
    format: TimestampFormat,
    n: int,
)
    requires
        0 <= n <= sources.len(),
        all_timestamps_parse(sources, format, n),
    ensures
        absorb_all(StatsModel::initial(), own, sources, format, n).unparsed == 0,
    decreases n,
{
    if n > 0 {
        assert(all_timestamps_parse(sources, format, n - 1));
        lemma_all_sources_parsed(own, sources, format, n - 1);
        let messages = sources[n - 1].messages@;
        assert forall|j: int| 0 <= j < messages.len() implies bucket_of(
            #[trigger] messages[j],
            format,
        ) is Some by {
            assert(bucket_of(sources[n - 1].messages@[j], format) is Some);
        }
        crate::parser::stats::lemma_all_parsed(messages, format, messages.len() as int);
    }
}

/// When the timestamp of every message gives an hour, the histogram of the
/// report holds every message of the report: each message is counted once,
/// in the bucket of its hour.
pub proof fn lemma_histogram_complete(
    before: UserData,
    after: UserData,
    sources: Seq<ChannelSource>,
    format: TimestampFormat,
)
    requires
        room_for_all(
            StatsModel::initial(),
            profile_id(before.user),
            sources,
            format,
            sources.len() as int,
        ),
        all_timestamps_parse(sources, format, sources.len() as int),
        totals_reported(
            before,
            after,
            absorb_all(
                StatsModel::initial(),
                profile_id(before.user),
                sources,
                format,
                sources.len() as int,
            ),
        ),
    ensures
        after.hours_values@.len() == HOURS,
        histogram_total(after.hours_values@) == after.message_count,
{
    let n = sources.len() as int;
    lemma_absorb_all_consistent(profile_id(before.user), sources, format, n);
    lemma_all_sources_parsed(profile_id(before.user), sources, format, n);
}

/// Once the counters lack room for a source they lack it for every longer
/// run of sources.
pub proof fn lemma_room_lost(
    m: StatsModel,
    own: Option<Seq<char>>,
    sources: Seq<ChannelSource>,
    format: TimestampFormat,
    i: int,
    n: int,
)
    requires
        0 <= i <= n <= sources.len(),
        !room_for_all(m, own, sources, format, i),
    ensures
        !room_for_all(m, own, sources, format, n),
    decreases n - i,
{
    if i < n {
        lemma_room_lost(m, own, sources, format, i, n - 1);
    }
}

/// The histogram of a report has 24 buckets and holds no more messages than
/// the report counts: as many, when every timestamp gave an hour.
pub proof fn lemma_histogram_bounded(before: UserData, after: UserData, stats: StatsModel)
    requires
        stats.consistent(),
        totals_reported(before, after, stats),
    ensures
        after.hours_values@.len() == HOURS,
        histogram_total(after.hours_values@) + stats.unparsed == after.message_count,
        histogram_total(after.hours_values@) <= after.message_count,
        stats.unparsed == 0 ==> histogram_total(after.hours_values@) == after.message_count,
{
}

/// Written into a report whose histogram is blank, as that of every fresh
/// report is, the histogram keeps its 24 buckets and no bucket falls. The
/// histogram of a report that is not fresh is replaced by the tally, not
/// added to.
pub proof fn lemma_histogram_grows_from_blank(before: UserData, after: UserData, stats: StatsModel)
    requires
        before.hours_values@ == Seq::new(HOURS as nat, |i: int| 0u32),
        stats.consistent(),
        totals_reported(before, after, stats),
    ensures
        after.hours_values@.len() == before.hours_values@.len(),
        forall|i: int|
            0 <= i < HOURS ==> (#[trigger] after.hours_values@[i]) >= before.hours_values@[i],
{
}

/// The channel rankings of a report hold at most ten entries each, never
/// increase in count, and keep ties in the order of discovery.
pub proof fn lemma_channel_rankings(before: UserData, after: UserData, stats: StatsModel, c: u32)
    requires
        totals_reported(before, after, stats),
    ensures
        after.top_channels@.len() <= RANKING_LIMIT,
        after.top_dms@.len() <= RANKING_LIMIT,
        crate::ranking::descending(after.top_channels@),
        crate::ranking::descending(after.top_dms@),
        crate::ranking::with_count(after.top_channels@, c).is_prefix_of(
            crate::ranking::with_count(stats.channels, c),
        ),
        crate::ranking::with_count(after.top_dms@, c).is_prefix_of(
            crate::ranking::with_count(stats.dms, c),
        ),
{
    lemma_top_len(stats.channels, RANKING_LIMIT as nat);
    lemma_top_len(stats.dms, RANKING_LIMIT as nat);
    crate::ranking::lemma_top_descending(stats.channels, RANKING_LIMIT as nat);
    crate::ranking::lemma_top_descending(stats.dms, RANKING_LIMIT as nat);
    crate::ranking::lemma_top_ties_in_order(stats.channels, RANKING_LIMIT as nat, c);
    crate::ranking::lemma_top_ties_in_order(stats.dms, RANKING_LIMIT as nat, c);
}

/// Every entry of a ranking of a part of the table is an entry of the
/// table that passes the part's test.
pub proof fn lemma_ranked_part(words: Seq<WordCount>, test: spec_fn(WordCount) -> bool, i: int)
    requires
        0 <= i < top(words.filter(test), RANKING_LIMIT as nat).len(),
    ensures
        test(top(words.filter(test), RANKING_LIMIT as nat)[i]),
        words.contains(top(words.filter(test), RANKING_LIMIT as nat)[i]),
{
    let part = words.filter(test);
    let entry = top(part, RANKING_LIMIT as nat)[i];
    lemma_top_members(part, RANKING_LIMIT as nat);
    assert(part.contains(entry));
    let at = choose|at: int| 0 <= at < part.len() && part[at] == entry;
    words.lemma_filter_pred(test, at);
    words.lemma_filter_contains_rev(test, entry);
}

/// With the emote pattern at hand, no token that the pattern matches is
/// among the ranked words, and every ranked emote is matched by it: a token
/// is ranked as the one or as the other, never as both.
pub proof fn lemma_emotes_apart(after: UserData, stats: StatsModel, pattern: Seq<char>)
    requires
        tokens_partitioned(after, stats, pattern),
    ensures
        forall|i: int|
            0 <= i < after.favorite_words@.len() ==> !pattern_matches(
                pattern,
                (#[trigger] after.favorite_words@[i]).word@,
            ),
        forall|i: int|
            0 <= i < after.favorite_emotes@.len() ==> pattern_matches(
                pattern,
                (#[trigger] after.favorite_emotes@[i]).word@,
            ),
        forall|i: int, j: int|
            0 <= i < after.favorite_words@.len() && 0 <= j < after.favorite_emotes@.len()
                ==> after.favorite_words@[i].word@ != after.favorite_emotes@[j].word@,
        after.favorite_words@.len() <= RANKING_LIMIT,
        after.favorite_emotes@.len() <= RANKING_LIMIT,
{
    assert forall|i: int| 0 <= i < after.favorite_words@.len() implies !pattern_matches(
        pattern,
        (#[trigger] after.favorite_words@[i]).word@,
    ) by {
        lemma_ranked_part(stats.words, word_test(pattern), i);
    }
    assert forall|i: int| 0 <= i < after.favorite_emotes@.len() implies pattern_matches(
        pattern,
        (#[trigger] after.favorite_emotes@[i]).word@,
    ) by {
        lemma_ranked_part(stats.words, emote_test(pattern), i);
    }
    lemma_top_len(stats.words.filter(word_test(pattern)), RANKING_LIMIT as nat);
    lemma_top_len(stats.words.filter(emote_test(pattern)), RANKING_LIMIT as nat);
}

/// No token of five characters or fewer is among the ranked words or the
/// ranked emotes, and every ranked token was seen at least once.
pub proof fn lemma_ranked_tokens_long(after: UserData, stats: StatsModel, pattern: Seq<char>)
    requires
        stats.consistent(),
        tokens_partitioned(after, stats, pattern),
    ensures
        forall|i: int|
            0 <= i < after.favorite_words@.len() ==> (#[trigger] after.favorite_words@[i]).word@.len()
                > SHORT_TOKEN_CHARS && after.favorite_words@[i].count >= 1,
        forall|i: int|
            0 <= i < after.favorite_emotes@.len() ==> (
            #[trigger] after.favorite_emotes@[i]).word@.len() > SHORT_TOKEN_CHARS
                && after.favorite_emotes@[i].count >= 1,
{
    assert forall|i: int| 0 <= i < after.favorite_words@.len() implies (
    #[trigger] after.favorite_words@[i]).word@.len() > SHORT_TOKEN_CHARS
        && after.favorite_words@[i].count >= 1 by {
        lemma_ranked_part(stats.words, word_test(pattern), i);
        let entry = after.favorite_words@[i];
        let at = choose|at: int| 0 <= at < stats.words.len() && stats.words[at] == entry;
        assert(is_long(stats.words[at].word@));
    }
    assert forall|i: int| 0 <= i < after.favorite_emotes@.len() implies (
    #[trigger] after.favorite_emotes@[i]).word@.len() > SHORT_TOKEN_CHARS
        && after.favorite_emotes@[i].count >= 1 by {
        lemma_ranked_part(stats.words, emote_test(pattern), i);
        let entry = after.favorite_emotes@[i];
        let at = choose|at: int| 0 <= at < stats.words.len() && stats.words[at] == entry;
        assert(is_long(stats.words[at].word@));
    }
}

/// The same totals give the same report: nothing in a report depends on
/// anything but the channels that were aggregated, their order, and the
/// emote pattern.
pub proof fn lemma_report_determined(
    before: UserData,
    first: UserData,
    second: UserData,
    stats: StatsModel,
    pattern: Seq<char>,
)
    requires
        totals_reported(before, first, stats),
        totals_reported(before, second, stats),
        tokens_partitioned(first, stats, pattern),
        tokens_partitioned(second, stats, pattern),
    ensures
        first.user == second.user,
        first.guilds == second.guilds,
        first.channel_count == second.channel_count,
        first.dm_channel_count == second.dm_channel_count,
        first.message_count == second.message_count,
        first.character_count == second.character_count,
        first.hours_values@ == second.hours_values@,
        first.top_channels@ == second.top_channels@,
        first.top_dms@ == second.top_dms@,
        first.favorite_words@ == second.favorite_words@,
        first.favorite_emotes@ == second.favorite_emotes@,
{
}

/// The sum of a prefix depends on the prefix alone.
pub proof fn lemma_bucket_sum_prefix(a: Seq<u32>, b: Seq<u32>, n: int)
    requires
        0 <= n <= a.len(),
        n <= b.len(),
        forall|i: int| 0 <= i < n ==> a[i] == b[i],
    ensures
        crate::models::user_data::bucket_sum(a, n) == crate::models::user_data::bucket_sum(b, n),
    decreases n,
{
    if n > 0 {
        lemma_bucket_sum_prefix(a, b, n - 1);
    }
}

} // verus!
