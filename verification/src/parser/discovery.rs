//! Discovery of the channels of an archive: their ids, the layout their
//! files follow, and what is to be read for each of them.

use crate::archive::ArchiveIndex;
use crate::error::ExtractError;
use crate::parser::layout::{
    channel_progress, found_message, found_text, messages_path_of, metadata_path_of, progress_text,
    reports_progress, ChannelLayout,
};
use crate::parser::Parser;
use crate::pattern::{first_capture, pattern_accepted, Pattern};
use crate::text::texts;
use vstd::prelude::*;

verus! {

/// The name of a channel's directory: 16 to 32 digits, with or without the
/// prefix `c`, at the end of the path. The digits are the channel's id.
pub const CHANNEL_DIRECTORY_PATTERN: &'static str = r"c?([0-9]{16,32})/$";

/// The id of the channel whose directory the member `name` is, if it is the
/// directory of a channel directly under `root`.
pub open spec fn channel_id_of(name: Seq<char>, root: Seq<char>, pattern: Seq<char>) -> Option<
    Seq<char>,
> {
    match first_capture(pattern, name) {
        Some(id) => if name == root + "/"@ + id + "/"@ || name == root + "/c"@ + id + "/"@ {
            Some(id)
        } else {
            None
        },
        None => None,
    }
}

/// The ids of the channels whose directories are among the first `n` of
/// `names`, in the order of the names.
pub open spec fn channel_ids(
    names: Seq<Seq<char>>,
    root: Seq<char>,
    pattern: Seq<char>,
    n: int,
) -> Seq<Seq<char>>
    decreases n,
{
    if n <= 0 || n > names.len() {
        Seq::empty()
    } else {
        let prev = channel_ids(names, root, pattern, n - 1);
        match channel_id_of(names[n - 1], root, pattern) {
            Some(id) => prev.push(id),
            None => prev,
        }
    }
}

/// Whether one of the first `n` of `ids` has its metadata in a directory
/// without prefix.
pub open spec fn any_bare(index: ArchiveIndex, root: Seq<char>, ids: Seq<Seq<char>>, n: int) -> bool
    decreases n,
{
    if n <= 0 || n > ids.len() {
        false
    } else {
        any_bare(index, root, ids, n - 1) || index.contains(
            metadata_path_of(root, ChannelLayout::BareJson.prefix(), ids[n - 1]),
        )
    }
}

/// Whether one of the first `n` of `ids` has a JSON message file in a
/// prefixed directory.
pub open spec fn any_prefixed_json(
    index: ArchiveIndex,
    root: Seq<char>,
    ids: Seq<Seq<char>>,
    n: int,
) -> bool
    decreases n,
{
    if n <= 0 || n > ids.len() {
        false
    } else {
        any_prefixed_json(index, root, ids, n - 1) || index.contains(
            messages_path_of(
                root,
                ChannelLayout::PrefixedJson.prefix(),
                ids[n - 1],
                ChannelLayout::PrefixedJson.extension(),
            ),
        )
    }
}

/// The layout that the archive's members show for the channels `ids`.
pub open spec fn layout_detected(
    index: ArchiveIndex,
    root: Seq<char>,
    ids: Seq<Seq<char>>,
) -> ChannelLayout {
    ChannelLayout::of(
        any_bare(index, root, ids, ids.len() as int),
        !any_prefixed_json(index, root, ids, ids.len() as int),
    )
}

/// What is to be read for one channel, and the progress to report before
/// reading it.
pub struct ChannelRequest {
    pub id: String,
    pub metadata_path: String,
    pub messages_path: String,
    pub progress: Option<String>,
}

/// What is to be read for all channels of an archive.
pub struct ChannelPlan {
    pub layout: ChannelLayout,
    pub announcement: String,
    pub requests: Vec<ChannelRequest>,
}

/// Whether `request` is the request for the channel at `index` of `ids`.
pub open spec fn request_for(
    request: ChannelRequest,
    root: Seq<char>,
    layout: ChannelLayout,
    ids: Seq<Seq<char>>,
    index: int,
) -> bool {
    &&& request.id@ == ids[index]
    &&& request.metadata_path@ == metadata_path_of(root, layout.prefix(), ids[index])
    &&& request.messages_path@ == messages_path_of(
        root,
        layout.prefix(),
        ids[index],
        layout.extension(),
    )
    &&& match request.progress {
        Some(text) => reports_progress(index as nat) && text@ == progress_text(
            index as nat,
            ids.len(),
            ids[index],
        ),
        None => !reports_progress(index as nat),
    }
}

impl<'a> Parser<'a> {
    /// The id of the channel whose directory the member `name` is, if it is
    /// the directory of a channel directly under `root`.
    pub fn channel_id(re: &Pattern, name: &String, root: &str) -> (r: Option<String>)
        ensures
            match r {
                Some(id) => channel_id_of(name@, root@, re.source()) == Some(id@),
                None => channel_id_of(name@, root@, re.source()) is None,
            },
    {
        match re.first_group(name.as_str()) {
            Some(id) => {
                let mut bare = String::from_str(root);
                bare.append("/");
                bare.append(id.as_str());
                bare.append("/");
                let mut prefixed = String::from_str(root);
                prefixed.append("/c");
                prefixed.append(id.as_str());
                prefixed.append("/");
                if *name == bare || *name == prefixed {
                    Some(id)
                } else {
                    None
                }
            },
            None => None,
        }
    }

    /// The ids of the channels whose directories are among `names`, found
    /// with a compiled pattern. Cancellation is checked once before the scan
    /// and once per name.
    pub fn scan_with(&self, re: &Pattern, names: &Vec<String>, messages_root: &str) -> (r: Result<
        Vec<String>,
        ExtractError,
    >)
        ensures
            match r {
                Ok(ids) => texts(ids@) == channel_ids(
                    texts(names@),
                    messages_root@,
                    re.source(),
                    names@.len() as int,
                ),
                Err(e) => e is Cancelled,
            },
    {
        match self.check_cancellation_token() {
            Err(e) => {
                return Err(e);
            },
            Ok(()) => {},
        }
        let mut ids: Vec<String> = Vec::new();
        let mut i: usize = 0;
        assert(texts(ids@) =~= Seq::empty());
        while i < names.len()
            invariant
                i <= names.len(),
                texts(ids@) == channel_ids(
                    texts(names@),
                    messages_root@,
                    re.source(),
                    i as int,
                ),
            decreases names.len() - i,
        {
            match self.check_cancellation_token() {
                Err(e) => {
                    return Err(e);
                },
                Ok(()) => {},
            }
            assert(texts(names@)[i as int] == names@[i as int]@);
            let ghost before = texts(ids@);
            match Parser::channel_id(re, &names[i], messages_root) {
                Some(id) => {
                    ids.push(id);
                    assert(texts(ids@) =~= before.push(id@));
                },
                None => {},
            }
            i += 1;
        }
        Ok(ids)
    }

    /// The ids of the channels of the archive: of the members that are
    /// directories of a channel directly under the messages root, in archive
    /// order. The pattern error comes exactly when the pattern compiler does
    /// not accept the pattern of channel directories, before any name is
    /// looked at.
    pub fn scan_channel_ids(&self, names: &Vec<String>, messages_root: &str) -> (r: Result<
        Vec<String>,
        ExtractError,
    >)
        ensures
            (r matches Err(e) && e is Pattern) <==> !pattern_accepted(CHANNEL_DIRECTORY_PATTERN@),
            match r {
                Ok(ids) => texts(ids@) == channel_ids(
                    texts(names@),
                    messages_root@,
                    CHANNEL_DIRECTORY_PATTERN@,
                    names@.len() as int,
                ),
                Err(e) => e is Cancelled || e is Pattern,
            },
    {
        match Pattern::compile(CHANNEL_DIRECTORY_PATTERN) {
            Some(re) => self.scan_with(&re, names, messages_root),
            None => Err(ExtractError::Pattern),
        }
    }

    /// The two findings of layout detection: whether a channel directory
    /// without prefix exists, and whether no prefixed directory holds a JSON
    /// message file, in which case messages are stored in tabular form.
    pub fn detect_package_format(&self, messages_root: &str, channel_ids: &Vec<String>) -> (r: (
        bool,
        bool,
    ))
        requires
            self.file_index.wf(),
        ensures
            r.0 == any_bare(
                self.file_index,
                messages_root@,
                texts(channel_ids@),
                channel_ids@.len() as int,
            ),
            r.1 == !any_prefixed_json(
                self.file_index,
                messages_root@,
                texts(channel_ids@),
                channel_ids@.len() as int,
            ),
    {
        let mut bare = false;
        let mut prefixed_json = false;
        let mut i: usize = 0;
        while i < channel_ids.len()
            invariant
                i <= channel_ids.len(),
                self.file_index.wf(),
                bare == any_bare(self.file_index, messages_root@, texts(channel_ids@), i as int),
                prefixed_json == any_prefixed_json(
                    self.file_index,
                    messages_root@,
                    texts(channel_ids@),
                    i as int,
                ),
            decreases channel_ids.len() - i,
        {
            assert(texts(channel_ids@)[i as int] == channel_ids@[i as int]@);
            let id = channel_ids[i].as_str();
            if !bare {
                let path = ChannelLayout::BareJson.metadata_path(messages_root, id);
                bare = self.file_exists(path.as_str());
            }
            if !prefixed_json {
                let path = ChannelLayout::PrefixedJson.messages_path(messages_root, id);
                prefixed_json = self.file_exists(path.as_str());
            }
            i += 1;
        }
        (bare, !prefixed_json)
    }

    /// What is to be read for the channels of the indexed archive: their
    /// ids in archive order, the layout their files follow, and for each
    /// channel the two paths and the progress to report.
    pub fn plan_channels(&self, messages_root: &str) -> (r: Result<ChannelPlan, ExtractError>)
        requires
            self.file_index.wf(),
        ensures
            (r matches Err(e) && e is Pattern) <==> !pattern_accepted(CHANNEL_DIRECTORY_PATTERN@),
            match r {
                Ok(plan) => {
                    let ids = channel_ids(
                        self.file_index.members(),
                        messages_root@,
                        CHANNEL_DIRECTORY_PATTERN@,
                        self.file_index.members().len() as int,
                    );
                    &&& plan.layout == layout_detected(self.file_index, messages_root@, ids)
                    &&& plan.announcement@ == found_text(ids.len())
                    &&& plan.requests@.len() == ids.len()
                    &&& forall|i: int|
                        0 <= i < ids.len() ==> request_for(
                            #[trigger] plan.requests@[i],
                            messages_root@,
                            plan.layout,
                            ids,
                            i,
                        )
                },
                Err(e) => e is Cancelled || e is Pattern,
            },
    {
        let ids = match self.scan_channel_ids(self.file_index.names(), messages_root) {
            Ok(ids) => ids,
            Err(e) => {
                return Err(e);
            },
        };
        let (bare, tabular) = self.detect_package_format(messages_root, &ids);
        let layout = ChannelLayout::from_flags(bare, tabular);
        let announcement = found_message(ids.len());
        let total = ids.len();
        let mut requests: Vec<ChannelRequest> = Vec::new();
        let mut i: usize = 0;
        while i < total
            invariant
                i <= total == ids.len(),
                requests@.len() == i,
                forall|k: int|
                    0 <= k < i ==> request_for(
                        #[trigger] requests@[k],
                        messages_root@,
                        layout,
                        texts(ids@),
                        k,
                    ),
            decreases total - i,
        {
            assert(texts(ids@)[i as int] == ids@[i as int]@);
            let id = ids[i].clone();
            let request = ChannelRequest {
                metadata_path: layout.metadata_path(messages_root, id.as_str()),
                messages_path: layout.messages_path(messages_root, id.as_str()),
                progress: channel_progress(i, total, id.as_str()),
                id,
            };
            requests.push(request);
            i += 1;
        }
        Ok(ChannelPlan { layout, announcement, requests })
    }
}

} // verus!
