//! How the files of a channel are named in each generation of the archive
//! format.

use crate::text::{decimal, push_decimal};
use crate::timestamps::TimestampFormat;
use vstd::prelude::*;

verus! {

/// The storage variants of a channel's files: whether the channel's
/// directory carries the prefix `c`, and whether messages are stored as JSON
/// or in tabular form.
#[derive(Debug, Clone, Copy, PartialEq, Eq, Structural)]
pub enum ChannelLayout {
    /// `<id>/messages.csv`.
    BareTabular,
    /// `<id>/messages.json`.
    BareJson,
    /// `c<id>/messages.csv`.
    PrefixedTabular,
    /// `c<id>/messages.json`.
    PrefixedJson,
}

/// The paths of the metadata file of channel `id` under `root`, given the
/// directory prefix.
pub open spec fn metadata_path_of(root: Seq<char>, prefix: Seq<char>, id: Seq<char>) -> Seq<char> {
    root + "/"@ + prefix + id + "/channel.json"@
}

/// The path of the message file of channel `id` under `root`, given the
/// directory prefix and the file extension.
pub open spec fn messages_path_of(
    root: Seq<char>,
    prefix: Seq<char>,
    id: Seq<char>,
    extension: Seq<char>,
) -> Seq<char> {
    root + "/"@ + prefix + id + "/messages."@ + extension
}

/// How often progress is reported: at every that-many-th channel.
pub const PROGRESS_INTERVAL: usize = 20;

/// The announcement of how many channels were found.
pub open spec fn found_text(total: nat) -> Seq<char> {
    "Found "@ + decimal(total) + " channels to process"@
}

/// The progress message for the channel at `index` of `total`.
pub open spec fn progress_text(index: nat, total: nat, id: Seq<char>) -> Seq<char> {
    "Processing channel "@ + decimal(index + 1) + " of "@ + decimal(total) + " (ID: "@ + id + ")"@
}

/// Whether progress is reported at the channel at `index`.
pub open spec fn reports_progress(index: nat) -> bool {
    index % (PROGRESS_INTERVAL as nat) == 0
}

impl ChannelLayout {
    /// The variant for the two findings of layout detection: whether some
    /// channel directory lacks the prefix, and whether no prefixed directory
    /// holds a JSON message file.
    pub open spec fn of(bare: bool, tabular: bool) -> ChannelLayout {
        if bare {
            if tabular {
                ChannelLayout::BareTabular
            } else {
                ChannelLayout::BareJson
            }
        } else {
            if tabular {
                ChannelLayout::PrefixedTabular
            } else {
                ChannelLayout::PrefixedJson
            }
        }
    }

    /// The prefix of a channel's directory.
    pub open spec fn prefix(self) -> Seq<char> {
        match self {
            ChannelLayout::BareTabular | ChannelLayout::BareJson => ""@,
            ChannelLayout::PrefixedTabular | ChannelLayout::PrefixedJson => "c"@,
        }
    }

    /// The extension of a channel's message file.
    pub open spec fn extension(self) -> Seq<char> {
        match self {
            ChannelLayout::BareTabular | ChannelLayout::PrefixedTabular => "csv"@,
            ChannelLayout::BareJson | ChannelLayout::PrefixedJson => "json"@,
        }
    }

    /// Whether messages are stored in tabular form.
    pub open spec fn is_tabular(self) -> bool {
        self is BareTabular || self is PrefixedTabular
    }

    /// The notation in which the timestamps of a variant are expected: RFC
    /// 3339 in the tabular variants, the plain notation in the JSON variants.
    /// The archive format names no notation for a generation; this
    /// assignment is the library's own choice. It decides only which
    /// notation is tried first: a timestamp that is not well formed in it is
    /// read in the other.
    pub open spec fn timestamps(self) -> TimestampFormat {
        if self.is_tabular() {
            TimestampFormat::Rfc3339
        } else {
            TimestampFormat::Plain
        }
    }

    /// The variant for the two findings of layout detection.
    pub fn from_flags(bare: bool, tabular: bool) -> (layout: ChannelLayout)
        ensures
            layout == ChannelLayout::of(bare, tabular),
    {
        if bare {
            if tabular {
                ChannelLayout::BareTabular
            } else {
                ChannelLayout::BareJson
            }
        } else {
            if tabular {
                ChannelLayout::PrefixedTabular
            } else {
                ChannelLayout::PrefixedJson
            }
        }
    }

    /// The prefix of a channel's directory.
    pub fn directory_prefix(&self) -> (s: &'static str)
        ensures
            s@ == self.prefix(),
    {
        match self {
            ChannelLayout::BareTabular | ChannelLayout::BareJson => "",
            ChannelLayout::PrefixedTabular | ChannelLayout::PrefixedJson => "c",
        }
    }

    /// The extension of a channel's message file.
    pub fn file_extension(&self) -> (s: &'static str)
        ensures
            s@ == self.extension(),
    {
        match self {
            ChannelLayout::BareTabular | ChannelLayout::PrefixedTabular => "csv",
            ChannelLayout::BareJson | ChannelLayout::PrefixedJson => "json",
        }
    }

    /// Whether messages are stored in tabular form.
    pub fn tabular(&self) -> (b: bool)
        ensures
            b == self.is_tabular(),
    {
        match self {
            ChannelLayout::BareTabular | ChannelLayout::PrefixedTabular => true,
            ChannelLayout::BareJson | ChannelLayout::PrefixedJson => false,
        }
    }

    /// The notation in which the timestamps of the variant are expected.
    pub fn timestamp_format(&self) -> (format: TimestampFormat)
        ensures
            format == self.timestamps(),
    {
        if self.tabular() {
            TimestampFormat::Rfc3339
        } else {
            TimestampFormat::Plain
        }
    }

    /// The path of the metadata file of channel `id` under `root`.
    pub fn metadata_path(&self, root: &str, id: &str) -> (path: String)
        ensures
            path@ == metadata_path_of(root@, self.prefix(), id@),
    {
        let mut path = String::from_str(root);
        path.append("/");
        path.append(self.directory_prefix());
        path.append(id);
        path.append("/channel.json");
        path
    }

    /// The path of the message file of channel `id` under `root`.
    pub fn messages_path(&self, root: &str, id: &str) -> (path: String)
        ensures
            path@ == messages_path_of(root@, self.prefix(), id@, self.extension()),
    {
        let mut path = String::from_str(root);
        path.append("/");
        path.append(self.directory_prefix());
        path.append(id);
        path.append("/messages.");
        path.append(self.file_extension());
        path
    }
}

/// The announcement of how many channels were found.
pub fn found_message(total: usize) -> (s: String)
    ensures
        s@ == found_text(total as nat),
{
    let mut s = String::from_str("Found ");
    push_decimal(&mut s, total as u64);
    s.append(" channels to process");
    s
}

/// The progress message for the channel at `index` of `total`, at every
/// twentieth channel; none at the others.
pub fn channel_progress(index: usize, total: usize, id: &str) -> (r: Option<String>)
    requires
        index < total,
    ensures
        match r {
            Some(s) => reports_progress(index as nat) && s@ == progress_text(
                index as nat,
                total as nat,
                id@,
            ),
            None => !reports_progress(index as nat),
        },
{
    if index % PROGRESS_INTERVAL == 0 {
        let mut s = String::from_str("Processing channel ");
        push_decimal(&mut s, (index + 1) as u64);
        s.append(" of ");
        push_decimal(&mut s, total as u64);
        s.append(" (ID: ");
        s.append(id);
        s.append(")");
        Some(s)
    } else {
        None
    }
}

/// The files of a channel lie two steps below the root they were built
/// from: layout resolution, applied to a path that was built for a channel,
/// finds the root again.
pub proof fn lemma_paths_lead_back(root: Seq<char>, layout: ChannelLayout, id: Seq<char>)
    requires
        crate::text::free_of(id, '/'),
    ensures
        crate::text::ancestor(metadata_path_of(root, layout.prefix(), id), 2) == root,
        crate::text::ancestor(messages_path_of(root, layout.prefix(), id, layout.extension()), 2)
            == root,
{
    reveal_strlit("");
    reveal_strlit("c");
    reveal_strlit("/");
    reveal_strlit("csv");
    reveal_strlit("json");
    reveal_strlit("/channel.json");
    reveal_strlit("/messages.");
    let directory = layout.prefix() + id;
    let file = "/channel.json"@.subrange(1, 13);
    assert(metadata_path_of(root, layout.prefix(), id) =~= (root.push('/') + directory).push('/')
        + file);
    crate::text::lemma_ancestor_of_grandchild(root, directory, file);
    let stem = "/messages."@.subrange(1, 10);
    let messages = stem + layout.extension();
    assert(messages_path_of(root, layout.prefix(), id, layout.extension()) =~= (root.push('/')
        + directory).push('/') + messages);
    crate::text::lemma_ancestor_of_grandchild(root, directory, messages);
}

} // verus!
