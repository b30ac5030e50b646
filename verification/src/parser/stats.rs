//! What the channels of an archive add up to, as a mathematical model: the
//! state that aggregation runs through, and what one channel does to it.

use crate::models::channel::{TopChannel, TopDM};
use crate::models::discord_models::DChannel;
use crate::models::message::{Message, WordCount};
use crate::models::user::DUser;
use crate::models::user_data::{bucket_sum, histogram_total, HOURS};
use crate::ranking::Counted;
use crate::timestamps::{hour_of, TimestampFormat};
use crate::words::{
    distinct_words, lemma_position, lemma_recorded_distinct, position, recorded,
};
use vstd::prelude::*;

verus! {

/// The state of channel aggregation.
pub struct StatsModel {
    /// Distinct long tokens with their counts, in the order of first
    /// discovery.
    pub words: Seq<WordCount>,
    /// Guild channels, in the order of discovery.
    pub channels: Seq<TopChannel>,
    /// Direct conversations with a known partner, in the order of discovery.
    pub dms: Seq<TopDM>,
    /// Bytes of message content.
    pub characters: int,
    /// Messages per hour of the day.
    pub hours: Seq<u32>,
    /// Messages whose timestamp gave no hour.
    pub unparsed: nat,
    /// Long tokens seen, repetitions included.
    pub occurrences: int,
}

/// Sum of the counts of `entries`.
pub open spec fn count_sum<T: Counted>(entries: Seq<T>) -> int
    decreases entries.len(),
{
    if entries.len() == 0 {
        0
    } else {
        count_sum(entries.drop_last()) + entries.last().tally()
    }
}

/// The greatest length, in characters, of a token that is too short to be
/// counted.
pub const SHORT_TOKEN_CHARS: usize = 5;

/// A token is kept for the frequency table when it is longer than five
/// characters.
pub open spec fn is_long(word: Seq<char>) -> bool {
    word.len() > SHORT_TOKEN_CHARS
}

/// The profile's id, if the profile is resolved.
pub open spec fn profile_id(profile: Option<DUser>) -> Option<Seq<char>> {
    match profile {
        Some(user) => Some(user.id@),
        None => None,
    }
}

/// The first of `recipients`, from `from` on, that is not `own`.
pub open spec fn first_other(recipients: Seq<String>, own: Seq<char>, from: int) -> Option<String>
    decreases recipients.len() - from,
{
    if from < 0 || from >= recipients.len() {
        None
    } else if recipients[from]@ != own {
        Some(recipients[from])
    } else {
        first_other(recipients, own, from + 1)
    }
}

/// The partner of a direct conversation: the recipient that is not the
/// profile. Unknown when the profile is unresolved or both recipients are
/// the profile.
pub open spec fn dm_partner(channel: DChannel, own: Option<Seq<char>>) -> Option<String> {
    if channel.is_dm() && own is Some {
        first_other(channel.recipients->0@, own->0, 0)
    } else {
        None
    }
}

/// Whether a channel counts at all: a direct conversation counts only with
/// a known partner.
pub open spec fn is_counted(channel: DChannel, own: Option<Seq<char>>) -> bool {
    !channel.is_dm() || dm_partner(channel, own) is Some
}

/// The ranking entry of a guild channel with `n` messages. Guild name and id
/// are absent when no guild is attached.
pub open spec fn channel_entry(channel: DChannel, n: nat) -> TopChannel {
    TopChannel {
        id: channel.id,
        name: channel.name,
        message_count: n as u32,
        guild_name: match channel.guild {
            Some(guild) => Some(guild.name),
            None => None,
        },
        guild_id: match channel.guild {
            Some(guild) => Some(guild.id),
            None => None,
        },
    }
}

/// The ranking entry of a direct conversation with `n` messages.
pub open spec fn dm_entry(channel: DChannel, partner: String, n: nat) -> TopDM {
    TopDM { id: channel.id, dm_user_id: partner, message_count: n as u32 }
}

/// The bucket a message falls into: the hour of its timestamp, if the
/// timestamp is well formed.
pub open spec fn bucket_of(message: Message, format: TimestampFormat) -> Option<int> {
    match hour_of(message.timestamp@, format) {
        Some(h) => if h < HOURS {
            Some(h as int)
        } else {
            None
        },
        None => None,
    }
}

/// The histogram after the first `n` of `messages` are counted.
pub open spec fn hours_after(
    hours: Seq<u32>,
    messages: Seq<Message>,
    format: TimestampFormat,
    n: int,
) -> Seq<u32>
    decreases n,
{
    if n <= 0 || n > messages.len() {
        hours
    } else {
        let prev = hours_after(hours, messages, format, n - 1);
        match bucket_of(messages[n - 1], format) {
            Some(h) => prev.update(h, (prev[h] + 1) as u32),
            None => prev,
        }
    }
}

/// How many of the first `n` of `messages` have a timestamp that gives no
/// hour.
pub open spec fn unparsed_among(messages: Seq<Message>, format: TimestampFormat, n: int) -> nat
    decreases n,
{
    if n <= 0 || n > messages.len() {
        0
    } else {
        let prev = unparsed_among(messages, format, n - 1);
        if bucket_of(messages[n - 1], format) is None {
            prev + 1
        } else {
            prev
        }
    }
}

/// Sum of the byte lengths of the first `n` of `messages`.
pub open spec fn length_sum(messages: Seq<Message>, n: int) -> int
    decreases n,
{
    if n <= 0 || n > messages.len() {
        0
    } else {
        length_sum(messages, n - 1) + messages[n - 1].length
    }
}

/// How many of the first `n` of `words` are long.
pub open spec fn long_count(words: Seq<String>, n: int) -> int
    decreases n,
{
    if n <= 0 || n > words.len() {
        0
    } else {
        long_count(words, n - 1) + if is_long(words[n - 1]@) {
            1int
        } else {
            0int
        }
    }
}

/// How many long tokens the first `n` of `messages` hold.
pub open spec fn long_total(messages: Seq<Message>, n: int) -> int
    decreases n,
{
    if n <= 0 || n > messages.len() {
        0
    } else {
        long_total(messages, n - 1) + long_count(
            messages[n - 1].words@,
            messages[n - 1].words@.len() as int,
        )
    }
}

/// The table after the long ones among the first `n` of `words` are
/// recorded, in order.
pub open spec fn record_words(entries: Seq<WordCount>, words: Seq<String>, n: int) -> Seq<WordCount>
    decreases n,
{
    if n <= 0 || n > words.len() {
        entries
    } else {
        let prev = record_words(entries, words, n - 1);
        if is_long(words[n - 1]@) {
            recorded(prev, words[n - 1])
        } else {
            prev
        }
    }
}

/// The table after the long tokens of the first `n` of `messages` are
/// recorded, in order.
pub open spec fn words_after(entries: Seq<WordCount>, messages: Seq<Message>, n: int) -> Seq<
    WordCount,
>
    decreases n,
{
    if n <= 0 || n > messages.len() {
        entries
    } else {
        record_words(
            words_after(entries, messages, n - 1),
            messages[n - 1].words@,
            messages[n - 1].words@.len() as int,
        )
    }
}

impl StatsModel {
    /// Messages of all counted channels.
    pub open spec fn message_total(self) -> int {
        count_sum(self.channels) + count_sum(self.dms)
    }

    /// The state before any channel.
    pub open spec fn initial() -> StatsModel {
        StatsModel {
            words: Seq::empty(),
            channels: Seq::empty(),
            dms: Seq::empty(),
            characters: 0,
            hours: Seq::new(HOURS as nat, |i: int| 0u32),
            unparsed: 0,
            occurrences: 0,
        }
    }

    /// What holds of every state that aggregation reaches: the histogram
    /// has 24 buckets; every message of a counted channel is in exactly one
    /// bucket or counted as unparsed; the table holds only long tokens,
    /// each once, none seen more often than tokens were seen in all.
    pub open spec fn consistent(self) -> bool {
        &&& self.hours.len() == HOURS
        &&& histogram_total(self.hours) + self.unparsed == self.message_total()
        &&& 0 <= self.characters
        &&& 0 <= self.occurrences
        &&& distinct_words(self.words)
        &&& forall|i: int|
            0 <= i < self.words.len() ==> is_long((#[trigger] self.words[i]).word@)
                && 1 <= self.words[i].count
                && self.words[i].count <= self.occurrences
    }

    /// Whether every counter can take what `messages` add.
    pub open spec fn has_room(self, messages: Seq<Message>) -> bool {
        &&& self.message_total() + messages.len() <= u32::MAX
        &&& self.characters + length_sum(messages, messages.len() as int) <= u32::MAX
        &&& self.occurrences + long_total(messages, messages.len() as int) <= u32::MAX
        &&& self.channels.len() < u32::MAX
        &&& self.dms.len() < u32::MAX
    }

    /// The state after one channel with its messages. A direct conversation
    /// without a known partner changes nothing.
    pub open spec fn absorb(
        self,
        own: Option<Seq<char>>,
        channel: DChannel,
        messages: Seq<Message>,
        format: TimestampFormat,
    ) -> StatsModel {
        let n = messages.len();
        if !is_counted(channel, own) {
            self
        } else {
            StatsModel {
                words: words_after(self.words, messages, n as int),
                channels: if channel.is_dm() {
                    self.channels
                } else {
                    self.channels.push(channel_entry(channel, n))
                },
                dms: if channel.is_dm() {
                    self.dms.push(dm_entry(channel, dm_partner(channel, own)->0, n))
                } else {
                    self.dms
                },
                characters: self.characters + length_sum(messages, n as int),
                hours: hours_after(self.hours, messages, format, n as int),
                unparsed: self.unparsed + unparsed_among(messages, format, n as int),
                occurrences: self.occurrences + long_total(messages, n as int),
            }
        }
    }
}

pub proof fn lemma_count_sum_push<T: Counted>(entries: Seq<T>, entry: T)
    ensures
        count_sum(entries.push(entry)) == count_sum(entries) + entry.tally(),
        count_sum(entries) >= 0,
    decreases entries.len(),
{
    assert(entries.push(entry).drop_last() =~= entries);
    if entries.len() > 0 {
        lemma_count_sum_push(entries.drop_last(), entries.last());
        assert(entries.drop_last().push(entries.last()) =~= entries);
    }
}

/// A bucket never holds more than the histogram in all.
pub proof fn lemma_bucket_bound(hours: Seq<u32>, n: int, h: int)
    requires
        0 <= h < n <= hours.len(),
    ensures
        hours[h] <= bucket_sum(hours, n),
        0 <= bucket_sum(hours, n),
    decreases n,
{
    lemma_bucket_sum_nonnegative(hours, n - 1);
    if h < n - 1 {
        lemma_bucket_bound(hours, n - 1, h);
    }
}

pub proof fn lemma_bucket_sum_nonnegative(hours: Seq<u32>, n: int)
    ensures
        0 <= bucket_sum(hours, n),
    decreases n,
{
    if 0 < n <= hours.len() {
        lemma_bucket_sum_nonnegative(hours, n - 1);
    }
}

/// Raising one bucket by one raises the sum of a prefix by one if the
/// bucket is in it, and leaves it otherwise.
pub proof fn lemma_bucket_sum_update(hours: Seq<u32>, h: int, n: int)
    requires
        0 <= h < hours.len(),
        0 <= n <= hours.len(),
        hours[h] < u32::MAX,
    ensures
        bucket_sum(hours.update(h, (hours[h] + 1) as u32), n) == bucket_sum(hours, n) + if h < n {
            1int
        } else {
            0int
        },
    decreases n,
{
    if n > 0 {
        lemma_bucket_sum_update(hours, h, n - 1);
    }
}

/// Counting messages keeps 24 buckets, and puts each message into one
/// bucket or among the unparsed.
pub proof fn lemma_hours_after(
    hours: Seq<u32>,
    messages: Seq<Message>,
    format: TimestampFormat,
    n: int,
)
    requires
        hours.len() == HOURS,
        0 <= n <= messages.len(),
        histogram_total(hours) + n <= u32::MAX,
    ensures
        hours_after(hours, messages, format, n).len() == HOURS,
        histogram_total(hours_after(hours, messages, format, n)) + unparsed_among(
            messages,
            format,
            n,
        ) == histogram_total(hours) + n,
    decreases n,
{
    if n > 0 {
        lemma_hours_after(hours, messages, format, n - 1);
        let prev = hours_after(hours, messages, format, n - 1);
        match bucket_of(messages[n - 1], format) {
            Some(h) => {
                lemma_bucket_bound(prev, HOURS as int, h);
                lemma_bucket_sum_update(prev, h, HOURS as int);
            },
            None => {},
        }
    }
}

pub proof fn lemma_length_sum_monotone(messages: Seq<Message>, i: int, n: int)
    requires
        0 <= i <= n <= messages.len(),
    ensures
        0 <= length_sum(messages, i) <= length_sum(messages, n),
    decreases n,
{
    if i < n {
        lemma_length_sum_monotone(messages, i, n - 1);
    } else if n > 0 {
        lemma_length_sum_monotone(messages, i - 1, n - 1);
    }
}

pub proof fn lemma_long_count_monotone(words: Seq<String>, i: int, n: int)
    requires
        0 <= i <= n <= words.len(),
    ensures
        0 <= long_count(words, i) <= long_count(words, n),
    decreases n,
{
    if i < n {
        lemma_long_count_monotone(words, i, n - 1);
    } else if n > 0 {
        lemma_long_count_monotone(words, i - 1, n - 1);
    }
}

pub proof fn lemma_long_total_monotone(messages: Seq<Message>, i: int, n: int)
    requires
        0 <= i <= n <= messages.len(),
    ensures
        0 <= long_total(messages, i) <= long_total(messages, n),
    decreases n,
{
    if i < n {
        lemma_long_total_monotone(messages, i, n - 1);
        lemma_long_count_monotone(
            messages[n - 1].words@,
            0,
            messages[n - 1].words@.len() as int,
        );
    } else if n > 0 {
        lemma_long_total_monotone(messages, i - 1, n - 1);
        lemma_long_count_monotone(
            messages[n - 1].words@,
            0,
            messages[n - 1].words@.len() as int,
        );
    }
}

/// Recording a long word keeps a table of long words, each seen no more
/// often than words were seen in all.
pub proof fn lemma_recorded_keeps(entries: Seq<WordCount>, word: String, occurrences: int)
    requires
        is_long(word@),
        forall|i: int|
            0 <= i < entries.len() ==> is_long((#[trigger] entries[i]).word@) && 1 <= entries[i].count
                && entries[i].count
                <= occurrences,
        0 <= occurrences < u32::MAX,
    ensures
        forall|i: int|
            0 <= i < recorded(entries, word).len() ==> is_long(
                (#[trigger] recorded(entries, word)[i]).word@,
            ) && 1 <= recorded(entries, word)[i].count
                && recorded(entries, word)[i].count <= occurrences + 1,
{
    lemma_position(entries, word@, 0);
    let at = position(entries, word@, 0);
    let out = recorded(entries, word);
    assert forall|i: int| 0 <= i < out.len() implies is_long((#[trigger] out[i]).word@)
        && 1 <= out[i].count
                && out[i].count <= occurrences + 1 by {
        if at >= 0 {
            if i != at {
                assert(out[i] == entries[i]);
            } else {
                assert(is_long(entries[at].word@));
            }
        } else if i < entries.len() {
            assert(out[i] == entries[i]);
        }
    }
}

/// The state before any channel is consistent.
pub proof fn lemma_initial_consistent()
    ensures
        StatsModel::initial().consistent(),
        StatsModel::initial().unparsed == 0,
        histogram_total(StatsModel::initial().hours) == 0,
{
    let hours = StatsModel::initial().hours;
    lemma_zero_buckets(hours, HOURS as int);
    assert(StatsModel::initial().channels =~= Seq::<TopChannel>::empty());
    assert(StatsModel::initial().dms =~= Seq::<TopDM>::empty());
}

/// Empty buckets add up to nothing.
pub proof fn lemma_zero_buckets(hours: Seq<u32>, n: int)
    requires
        0 <= n <= hours.len(),
        forall|i: int| 0 <= i < n ==> hours[i] == 0,
    ensures
        bucket_sum(hours, n) == 0,
    decreases n,
{
    if n > 0 {
        lemma_zero_buckets(hours, n - 1);
    }
}

/// Recording the long ones among some words keeps a table of long words,
/// none seen more often than words were seen in all.
pub proof fn lemma_record_words_keeps(
    entries: Seq<WordCount>,
    words: Seq<String>,
    n: int,
    occurrences: int,
)
    requires
        0 <= n <= words.len(),
        0 <= occurrences,
        occurrences + long_count(words, n) <= u32::MAX,
        forall|i: int|
            0 <= i < entries.len() ==> is_long((#[trigger] entries[i]).word@) && 1 <= entries[i].count
                && entries[i].count
                <= occurrences,
    ensures
        forall|i: int|
            0 <= i < record_words(entries, words, n).len() ==> is_long(
                (#[trigger] record_words(entries, words, n)[i]).word@,
            ) && 1 <= record_words(entries, words, n)[i].count
                && record_words(entries, words, n)[i].count <= occurrences + long_count(words, n),
    decreases n,
{
    if n > 0 {
        lemma_long_count_monotone(words, 0, n - 1);
        lemma_record_words_keeps(entries, words, n - 1, occurrences);
        if is_long(words[n - 1]@) {
            lemma_recorded_keeps(
                record_words(entries, words, n - 1),
                words[n - 1],
                occurrences + long_count(words, n - 1),
            );
        }
    }
}

/// Recording the long tokens of some messages keeps a table of long words,
/// none seen more often than words were seen in all.
pub proof fn lemma_words_after_keeps(
    entries: Seq<WordCount>,
    messages: Seq<Message>,
    n: int,
    occurrences: int,
)
    requires
        0 <= n <= messages.len(),
        0 <= occurrences,
        occurrences + long_total(messages, n) <= u32::MAX,
        forall|i: int|
            0 <= i < entries.len() ==> is_long((#[trigger] entries[i]).word@) && 1 <= entries[i].count
                && entries[i].count
                <= occurrences,
    ensures
        forall|i: int|
            0 <= i < words_after(entries, messages, n).len() ==> is_long(
                (#[trigger] words_after(entries, messages, n)[i]).word@,
            ) && 1 <= words_after(entries, messages, n)[i].count
                && words_after(entries, messages, n)[i].count <= occurrences + long_total(
                messages,
                n,
            ),
    decreases n,
{
    if n > 0 {
        lemma_long_total_monotone(messages, 0, n - 1);
        lemma_long_count_monotone(messages[n - 1].words@, 0, messages[n - 1].words@.len() as int);
        lemma_words_after_keeps(entries, messages, n - 1, occurrences);
        lemma_record_words_keeps(
            words_after(entries, messages, n - 1),
            messages[n - 1].words@,
            messages[n - 1].words@.len() as int,
            occurrences + long_total(messages, n - 1),
        );
    }
}

/// Recording words keeps the words of a table distinct.
pub proof fn lemma_record_words_distinct(entries: Seq<WordCount>, words: Seq<String>, n: int)
    requires
        distinct_words(entries),
    ensures
        distinct_words(record_words(entries, words, n)),
    decreases n,
{
    if 0 < n <= words.len() {
        lemma_record_words_distinct(entries, words, n - 1);
        if is_long(words[n - 1]@) {
            lemma_recorded_distinct(record_words(entries, words, n - 1), words[n - 1]);
        }
    }
}

/// Recording the tokens of messages keeps the words of a table distinct.
pub proof fn lemma_words_after_distinct(entries: Seq<WordCount>, messages: Seq<Message>, n: int)
    requires
        distinct_words(entries),
    ensures
        distinct_words(words_after(entries, messages, n)),
    decreases n,
{
    if 0 < n <= messages.len() {
        lemma_words_after_distinct(entries, messages, n - 1);
        lemma_record_words_distinct(
            words_after(entries, messages, n - 1),
            messages[n - 1].words@,
            messages[n - 1].words@.len() as int,
        );
    }
}

/// One channel takes a consistent state to a consistent state: the
/// histogram keeps its 24 buckets and never counts more messages than the
/// channels hold, and the table keeps holding long tokens only.
pub proof fn lemma_absorb_consistent(
    m: StatsModel,
    own: Option<Seq<char>>,
    channel: DChannel,
    messages: Seq<Message>,
    format: TimestampFormat,
)
    requires
        m.consistent(),
        m.has_room(messages),
    ensures
        m.absorb(own, channel, messages, format).consistent(),
{
    let n = messages.len() as int;
    if is_counted(channel, own) {
        lemma_bucket_sum_nonnegative(m.hours, HOURS as int);
        lemma_count_sum_push(m.channels, channel_entry(channel, n as nat));
        lemma_count_sum_push(m.dms, dm_entry(channel, dm_partner(channel, own)->0, n as nat));
        lemma_hours_after(m.hours, messages, format, n);
        lemma_length_sum_monotone(messages, 0, n);
        lemma_long_total_monotone(messages, 0, n);
        lemma_words_after_keeps(m.words, messages, n, m.occurrences);
        lemma_words_after_distinct(m.words, messages, n);
    }
}

/// When the timestamp of every message gives an hour, no message is
/// unparsed.
pub proof fn lemma_all_parsed(messages: Seq<Message>, format: TimestampFormat, n: int)
    requires
        0 <= n <= messages.len(),
        forall|i: int| 0 <= i < n ==> bucket_of(#[trigger] messages[i], format) is Some,
    ensures
        unparsed_among(messages, format, n) == 0,
    decreases n,
{
    if n > 0 {
        lemma_all_parsed(messages, format, n - 1);
    }
}

} // verus!
