//! Analytics events: the closed vocabulary of event types and the report
//! that counts them.

use crate::ranking::Counted;
use crate::text::{chars_of, spells};
use vstd::prelude::*;

verus! {

/// One line of the event log, as far as counting needs it.
#[derive(Debug, Clone)]
pub struct Event {
    pub event_type: String,
}

/// The event types that have a counter of their own.
#[derive(Debug, Clone, Copy, PartialEq, Eq, Structural)]
pub enum EventKind {
    ApplicationCreated,
    BotTokenCompromised,
    EmailOpened,
    LoginSuccessful,
    UserAvatarUpdated,
    AppOpened,
    NotificationClicked,
    AppCrashed,
    AppNativeCrash,
    Oauth2AuthorizeAccepted,
    RemoteAuthLogin,
    CaptchaServed,
    VoiceMessageRecorded,
    MessageReported,
    MessageEdited,
    PremiumUpsellViewed,
    ApplicationCommandUsed,
    AddReaction,
    GuildJoined,
    JoinVoiceChannel,
    LeaveVoiceChannel,
}

/// Counts of events by type, the most used commands, and the count of every
/// decoded event, named or not.
#[derive(Debug, Clone)]
pub struct EventCount {
    pub application_created: u32,
    pub bot_token_compromised: u32,
    pub email_opened: u32,
    pub login_successful: u32,
    pub user_avatar_updated: u32,
    pub app_opened: u32,
    pub notification_clicked: u32,
    pub app_crashed: u32,
    pub app_native_crash: u32,
    pub oauth2_authorize_accepted: u32,
    pub remote_auth_login: u32,
    pub captcha_served: u32,
    pub voice_message_recorded: u32,
    pub message_reported: u32,
    pub message_edited: u32,
    pub premium_upsell_viewed: u32,
    pub application_command_used: u32,
    pub add_reaction: u32,
    pub guild_joined: u32,
    pub join_voice_channel: u32,
    pub leave_voice_channel: u32,
    pub most_used_commands: Vec<MostUsedCommand>,
    pub all_events: u32,
}

/// A command with how often it was used. Name and description are the first
/// ones seen for the command.
#[derive(Debug, Clone)]
pub struct MostUsedCommand {
    pub command_id: String,
    pub application_id: String,
    pub command_name: Option<String>,
    pub command_description: Option<String>,
    pub count: u32,
}

impl EventKind {
    /// The exact type string of this kind of event.
    pub open spec fn name(self) -> Seq<char> {
        match self {
            EventKind::ApplicationCreated => "application_created"@,
            EventKind::BotTokenCompromised => "bot_token_compromised"@,
            EventKind::EmailOpened => "email_opened"@,
            EventKind::LoginSuccessful => "login_successful"@,
            EventKind::UserAvatarUpdated => "user_avatar_updated"@,
            EventKind::AppOpened => "app_opened"@,
            EventKind::NotificationClicked => "notification_clicked"@,
            EventKind::AppCrashed => "app_crashed"@,
            EventKind::AppNativeCrash => "app_native_crash"@,
            EventKind::Oauth2AuthorizeAccepted => "oauth2_authorize_accepted"@,
            EventKind::RemoteAuthLogin => "remote_auth_login"@,
            EventKind::CaptchaServed => "captcha_served"@,
            EventKind::VoiceMessageRecorded => "voice_message_recorded"@,
            EventKind::MessageReported => "message_reported"@,
            EventKind::MessageEdited => "message_edited"@,
            EventKind::PremiumUpsellViewed => "premium_upsell_viewed"@,
            EventKind::ApplicationCommandUsed => "application_command_used"@,
            EventKind::AddReaction => "add_reaction"@,
            EventKind::GuildJoined => "guild_joined"@,
            EventKind::JoinVoiceChannel => "join_voice_channel"@,
            EventKind::LeaveVoiceChannel => "leave_voice_channel"@,
        }
    }

    /// The kind whose type string is `event_type`, if it is one of the
    /// vocabulary. The vocabulary is searched in a fixed order.
    pub open spec fn of(event_type: Seq<char>) -> Option<EventKind> {
        if event_type == EventKind::ApplicationCreated.name() {
            Some(EventKind::ApplicationCreated)
        } else if event_type == EventKind::BotTokenCompromised.name() {
            Some(EventKind::BotTokenCompromised)
        } else if event_type == EventKind::EmailOpened.name() {
            Some(EventKind::EmailOpened)
        } else if event_type == EventKind::LoginSuccessful.name() {
            Some(EventKind::LoginSuccessful)
        } else if event_type == EventKind::UserAvatarUpdated.name() {
            Some(EventKind::UserAvatarUpdated)
        } else if event_type == EventKind::AppOpened.name() {
            Some(EventKind::AppOpened)
        } else if event_type == EventKind::NotificationClicked.name() {
            Some(EventKind::NotificationClicked)
        } else if event_type == EventKind::AppCrashed.name() {
            Some(EventKind::AppCrashed)
        } else if event_type == EventKind::AppNativeCrash.name() {
            Some(EventKind::AppNativeCrash)
        } else if event_type == EventKind::Oauth2AuthorizeAccepted.name() {
            Some(EventKind::Oauth2AuthorizeAccepted)
        } else if event_type == EventKind::RemoteAuthLogin.name() {
            Some(EventKind::RemoteAuthLogin)
        } else if event_type == EventKind::CaptchaServed.name() {
            Some(EventKind::CaptchaServed)
        } else if event_type == EventKind::VoiceMessageRecorded.name() {
            Some(EventKind::VoiceMessageRecorded)
        } else if event_type == EventKind::MessageReported.name() {
            Some(EventKind::MessageReported)
        } else if event_type == EventKind::MessageEdited.name() {
            Some(EventKind::MessageEdited)
        } else if event_type == EventKind::PremiumUpsellViewed.name() {
            Some(EventKind::PremiumUpsellViewed)
        } else if event_type == EventKind::ApplicationCommandUsed.name() {
            Some(EventKind::ApplicationCommandUsed)
        } else if event_type == EventKind::AddReaction.name() {
            Some(EventKind::AddReaction)
        } else if event_type == EventKind::GuildJoined.name() {
            Some(EventKind::GuildJoined)
        } else if event_type == EventKind::JoinVoiceChannel.name() {
            Some(EventKind::JoinVoiceChannel)
        } else if event_type == EventKind::LeaveVoiceChannel.name() {
            Some(EventKind::LeaveVoiceChannel)
        } else {
            None
        }
    }

    /// Finds the kind of an event from its type string. Types outside the
    /// vocabulary have none.
    pub fn classify(event_type: &str) -> (r: Option<EventKind>)
        ensures
            r == EventKind::of(event_type@),
    {
        let t = chars_of(event_type);
        if spells(&t, "application_created") {
            Some(EventKind::ApplicationCreated)
        } else if spells(&t, "bot_token_compromised") {
            Some(EventKind::BotTokenCompromised)
        } else if spells(&t, "email_opened") {
            Some(EventKind::EmailOpened)
        } else if spells(&t, "login_successful") {
            Some(EventKind::LoginSuccessful)
        } else if spells(&t, "user_avatar_updated") {
            Some(EventKind::UserAvatarUpdated)
        } else if spells(&t, "app_opened") {
            Some(EventKind::AppOpened)
        } else if spells(&t, "notification_clicked") {
            Some(EventKind::NotificationClicked)
        } else if spells(&t, "app_crashed") {
            Some(EventKind::AppCrashed)
        } else if spells(&t, "app_native_crash") {
            Some(EventKind::AppNativeCrash)
        } else if spells(&t, "oauth2_authorize_accepted") {
            Some(EventKind::Oauth2AuthorizeAccepted)
        } else if spells(&t, "remote_auth_login") {
            Some(EventKind::RemoteAuthLogin)
        } else if spells(&t, "captcha_served") {
            Some(EventKind::CaptchaServed)
        } else if spells(&t, "voice_message_recorded") {
            Some(EventKind::VoiceMessageRecorded)
        } else if spells(&t, "message_reported") {
            Some(EventKind::MessageReported)
        } else if spells(&t, "message_edited") {
            Some(EventKind::MessageEdited)
        } else if spells(&t, "premium_upsell_viewed") {
            Some(EventKind::PremiumUpsellViewed)
        } else if spells(&t, "application_command_used") {
            Some(EventKind::ApplicationCommandUsed)
        } else if spells(&t, "add_reaction") {
            Some(EventKind::AddReaction)
        } else if spells(&t, "guild_joined") {
            Some(EventKind::GuildJoined)
        } else if spells(&t, "join_voice_channel") {
            Some(EventKind::JoinVoiceChannel)
        } else if spells(&t, "leave_voice_channel") {
            Some(EventKind::LeaveVoiceChannel)
        } else {
            None
        }
    }
}

impl EventCount {
    /// Whether two reports agree in every named counter.
    pub open spec fn same_counters(&self, other: EventCount) -> bool {
        &&& self.application_created == other.application_created
        &&& self.bot_token_compromised == other.bot_token_compromised
        &&& self.email_opened == other.email_opened
        &&& self.login_successful == other.login_successful
        &&& self.user_avatar_updated == other.user_avatar_updated
        &&& self.app_opened == other.app_opened
        &&& self.notification_clicked == other.notification_clicked
        &&& self.app_crashed == other.app_crashed
        &&& self.app_native_crash == other.app_native_crash
        &&& self.oauth2_authorize_accepted == other.oauth2_authorize_accepted
        &&& self.remote_auth_login == other.remote_auth_login
        &&& self.captcha_served == other.captcha_served
        &&& self.voice_message_recorded == other.voice_message_recorded
        &&& self.message_reported == other.message_reported
        &&& self.message_edited == other.message_edited
        &&& self.premium_upsell_viewed == other.premium_upsell_viewed
        &&& self.application_command_used == other.application_command_used
        &&& self.add_reaction == other.add_reaction
        &&& self.guild_joined == other.guild_joined
        &&& self.join_voice_channel == other.join_voice_channel
        &&& self.leave_voice_channel == other.leave_voice_channel
    }

    /// The counter of one kind of event.
    #[verifier::opaque]
    pub open spec fn named(&self, kind: EventKind) -> u32 {
        match kind {
            EventKind::ApplicationCreated => self.application_created,
            EventKind::BotTokenCompromised => self.bot_token_compromised,
            EventKind::EmailOpened => self.email_opened,
            EventKind::LoginSuccessful => self.login_successful,
            EventKind::UserAvatarUpdated => self.user_avatar_updated,
            EventKind::AppOpened => self.app_opened,
            EventKind::NotificationClicked => self.notification_clicked,
            EventKind::AppCrashed => self.app_crashed,
            EventKind::AppNativeCrash => self.app_native_crash,
            EventKind::Oauth2AuthorizeAccepted => self.oauth2_authorize_accepted,
            EventKind::RemoteAuthLogin => self.remote_auth_login,
            EventKind::CaptchaServed => self.captcha_served,
            EventKind::VoiceMessageRecorded => self.voice_message_recorded,
            EventKind::MessageReported => self.message_reported,
            EventKind::MessageEdited => self.message_edited,
            EventKind::PremiumUpsellViewed => self.premium_upsell_viewed,
            EventKind::ApplicationCommandUsed => self.application_command_used,
            EventKind::AddReaction => self.add_reaction,
            EventKind::GuildJoined => self.guild_joined,
            EventKind::JoinVoiceChannel => self.join_voice_channel,
            EventKind::LeaveVoiceChannel => self.leave_voice_channel,
        }
    }

    /// A report in which nothing has been counted.
    pub fn new() -> (r: Self)
        ensures
            r.all_events == 0,
            r.most_used_commands@.len() == 0,
            forall|kind: EventKind| r.named(kind) == 0,
    {
        reveal(EventCount::named);
        EventCount {
            application_created: 0,
            bot_token_compromised: 0,
            email_opened: 0,
            login_successful: 0,
            user_avatar_updated: 0,
            app_opened: 0,
            notification_clicked: 0,
            app_crashed: 0,
            app_native_crash: 0,
            oauth2_authorize_accepted: 0,
            remote_auth_login: 0,
            captcha_served: 0,
            voice_message_recorded: 0,
            message_reported: 0,
            message_edited: 0,
            premium_upsell_viewed: 0,
            application_command_used: 0,
            add_reaction: 0,
            guild_joined: 0,
            join_voice_channel: 0,
            leave_voice_channel: 0,
            most_used_commands: Vec::new(),
            all_events: 0,
        }
    }

    /// The counter of one kind of event.
    pub fn count_of(&self, kind: EventKind) -> (c: u32)
        ensures
            c == self.named(kind),
    {
        reveal(EventCount::named);
        match kind {
            EventKind::ApplicationCreated => self.application_created,
            EventKind::BotTokenCompromised => self.bot_token_compromised,
            EventKind::EmailOpened => self.email_opened,
            EventKind::LoginSuccessful => self.login_successful,
            EventKind::UserAvatarUpdated => self.user_avatar_updated,
            EventKind::AppOpened => self.app_opened,
            EventKind::NotificationClicked => self.notification_clicked,
            EventKind::AppCrashed => self.app_crashed,
            EventKind::AppNativeCrash => self.app_native_crash,
            EventKind::Oauth2AuthorizeAccepted => self.oauth2_authorize_accepted,
            EventKind::RemoteAuthLogin => self.remote_auth_login,
            EventKind::CaptchaServed => self.captcha_served,
            EventKind::VoiceMessageRecorded => self.voice_message_recorded,
            EventKind::MessageReported => self.message_reported,
            EventKind::MessageEdited => self.message_edited,
            EventKind::PremiumUpsellViewed => self.premium_upsell_viewed,
            EventKind::ApplicationCommandUsed => self.application_command_used,
            EventKind::AddReaction => self.add_reaction,
            EventKind::GuildJoined => self.guild_joined,
            EventKind::JoinVoiceChannel => self.join_voice_channel,
            EventKind::LeaveVoiceChannel => self.leave_voice_channel,
        }
    }

    /// Adds one to the counter of `kind` and leaves everything else as it
    /// was.
    #[verifier::rlimit(50)]
    #[verifier::spinoff_prover]
    pub fn bump(&mut self, kind: EventKind)
        requires
            old(self).named(kind) < u32::MAX,
        ensures
            final(self).named(kind) == old(self).named(kind) + 1,
            forall|other: EventKind|
                other != kind ==> final(self).named(other) == old(self).named(other),
            final(self).all_events == old(self).all_events,
            final(self).most_used_commands == old(self).most_used_commands,
    {
        reveal(EventCount::named);
        match kind {
            EventKind::ApplicationCreated => self.application_created += 1,
            EventKind::BotTokenCompromised => self.bot_token_compromised += 1,
            EventKind::EmailOpened => self.email_opened += 1,
            EventKind::LoginSuccessful => self.login_successful += 1,
            EventKind::UserAvatarUpdated => self.user_avatar_updated += 1,
            EventKind::AppOpened => self.app_opened += 1,
            EventKind::NotificationClicked => self.notification_clicked += 1,
            EventKind::AppCrashed => self.app_crashed += 1,
            EventKind::AppNativeCrash => self.app_native_crash += 1,
            EventKind::Oauth2AuthorizeAccepted => self.oauth2_authorize_accepted += 1,
            EventKind::RemoteAuthLogin => self.remote_auth_login += 1,
            EventKind::CaptchaServed => self.captcha_served += 1,
            EventKind::VoiceMessageRecorded => self.voice_message_recorded += 1,
            EventKind::MessageReported => self.message_reported += 1,
            EventKind::MessageEdited => self.message_edited += 1,
            EventKind::PremiumUpsellViewed => self.premium_upsell_viewed += 1,
            EventKind::ApplicationCommandUsed => self.application_command_used += 1,
            EventKind::AddReaction => self.add_reaction += 1,
            EventKind::GuildJoined => self.guild_joined += 1,
            EventKind::JoinVoiceChannel => self.join_voice_channel += 1,
            EventKind::LeaveVoiceChannel => self.leave_voice_channel += 1,
        }
    }
}

impl Default for EventCount {
    fn default() -> (r: Self)
        ensures
            r.all_events == 0,
            r.most_used_commands@.len() == 0,
            forall|kind: EventKind| r.named(kind) == 0,
    {
        EventCount::new()
    }
}

impl Counted for MostUsedCommand {
    open spec fn tally(&self) -> u32 {
        self.count
    }

    fn count(&self) -> (c: u32) {
        self.count
    }
}

/// The named counters of a report depend on nothing else in it.
pub proof fn lemma_named_frame(a: EventCount, b: EventCount)
    requires
        a.same_counters(b),
    ensures
        forall|kind: EventKind| #[trigger] a.named(kind) == b.named(kind),
        forall|kind: EventKind| a.named(kind) == #[trigger] b.named(kind),
{
    reveal(EventCount::named);
}

/// What the type strings of the vocabulary hold.
proof fn reveal_vocabulary()
    ensures
        "application_created"@.len() == 19 && "application_created"@[12] == 'c',
        "bot_token_compromised"@.len() == 21 && "bot_token_compromised"@[0] == 'b',
        "email_opened"@.len() == 12 && "email_opened"@[0] == 'e',
        "login_successful"@.len() == 16 && "login_successful"@[0] == 'l',
        "user_avatar_updated"@.len() == 19 && "user_avatar_updated"@[12] == 'u',
        "app_opened"@.len() == 10 && "app_opened"@[0] == 'a',
        "notification_clicked"@.len() == 20 && "notification_clicked"@[0] == 'n',
        "app_crashed"@.len() == 11 && "app_crashed"@[0] == 'a',
        "app_native_crash"@.len() == 16 && "app_native_crash"@[0] == 'a',
        "oauth2_authorize_accepted"@.len() == 25,
        "remote_auth_login"@.len() == 17 && "remote_auth_login"@[0] == 'r',
        "captcha_served"@.len() == 14,
        "voice_message_recorded"@.len() == 22,
        "message_reported"@.len() == 16 && "message_reported"@[0] == 'm',
        "message_edited"@.len() == 14 && "message_edited"@[0] == 'm',
        "premium_upsell_viewed"@.len() == 21 && "premium_upsell_viewed"@[0] == 'p',
        "application_command_used"@.len() == 24,
        "add_reaction"@.len() == 12 && "add_reaction"@[0] == 'a',
        "guild_joined"@.len() == 12 && "guild_joined"@[0] == 'g',
        "join_voice_channel"@.len() == 18,
        "leave_voice_channel"@.len() == 19 && "leave_voice_channel"@[12] == 'c'
            && "leave_voice_channel"@[0] == 'l',
        "captcha_served"@[0] == 'c',
        "application_created"@[0] == 'a',
        "user_avatar_updated"@[0] == 'u',
{
    reveal_strlit("application_created");
    reveal_strlit("bot_token_compromised");
    reveal_strlit("email_opened");
    reveal_strlit("login_successful");
    reveal_strlit("user_avatar_updated");
    reveal_strlit("app_opened");
    reveal_strlit("notification_clicked");
    reveal_strlit("app_crashed");
    reveal_strlit("app_native_crash");
    reveal_strlit("oauth2_authorize_accepted");
    reveal_strlit("remote_auth_login");
    reveal_strlit("captcha_served");
    reveal_strlit("voice_message_recorded");
    reveal_strlit("message_reported");
    reveal_strlit("message_edited");
    reveal_strlit("premium_upsell_viewed");
    reveal_strlit("application_command_used");
    reveal_strlit("add_reaction");
    reveal_strlit("guild_joined");
    reveal_strlit("join_voice_channel");
    reveal_strlit("leave_voice_channel");
}

/// Each kind is found by its own type string and by no other: the
/// vocabulary names its kinds apart.
pub proof fn lemma_kind_by_name(kind: EventKind)
    ensures
        EventKind::of(kind.name()) == Some(kind),
{
    reveal_vocabulary();
}

/// A type string finds a kind only if it is the kind's own.
pub proof fn lemma_name_of_kind(event_type: Seq<char>)
    ensures
        EventKind::of(event_type) matches Some(kind) ==> kind.name() == event_type,
{
}

} // verus!
