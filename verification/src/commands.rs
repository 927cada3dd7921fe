//! What the bot's commands decide and write, apart from talking to Discord
//! and to the database.
use vstd::prelude::*;
use vstd::string::*;

use crate::duration::{duration_string, duration_text};
use crate::edit_distance::{chars_of, edit_distance, lemma_lev_bounded, levenshtein, similarity, Similarity};
use crate::text::{decimal, mention, mention_leads, mention_reads_back, push_decimal, push_mention};

verus! {

broadcast use vstd::seq_lib::group_seq_properties;

// ---------------------------------------------------------------------------
// Announcements

/// How the bot writes what a session was dedicated to: " to **what**", or
/// "****." where nothing was given.
pub open spec fn came_to_text(came_to: Seq<char>) -> Seq<char> {
    if came_to.len() == 0 {
        "****."@
    } else {
        " to **"@ + came_to + "**"@
    }
}

/// How the bot writes what a session was dedicated to.
pub fn came_to_phrase(came_to: &str) -> (s: String)
    ensures
        s@ == came_to_text(came_to@),
{
    let mut s = String::new();
    if came_to.is_empty() {
        s.append("****.");
    } else {
        s.append(" to **");
        s.append(came_to);
        s.append("**");
    }
    s
}

/// The message that announces a finished prejac.
pub open spec fn prejac_announcement_text(user_id: u64, secs: u64, came_to: Seq<char>) -> Seq<char> {
    mention(user_id) + " came in "@ + duration_text(secs as nat) + came_to_text(came_to) + "!"@
}

/// The message that announces a finished prejac of `secs` seconds.
pub fn prejac_announcement(user_id: u64, secs: u64, came_to: &str) -> (s: String)
    ensures
        s@ == prejac_announcement_text(user_id, secs, came_to@),
{
    let mut s = String::new();
    push_mention(&mut s, user_id);
    s.append(" came in ");
    let pretty = duration_string(secs);
    s.append(pretty.as_str());
    let phrase = came_to_phrase(came_to);
    s.append(phrase.as_str());
    s.append("!");
    assert(s@ =~= prejac_announcement_text(user_id, secs, came_to@));
    s
}

/// The message that announces a finished gooning session.
pub open spec fn goon_announcement_text(user_id: u64, secs: u64, came_to: Seq<char>) -> Seq<char> {
    mention(user_id) + " gooned for "@ + duration_text(secs as nat) + came_to_text(came_to) + "!"@
}

/// The message that announces a gooning session of `secs` seconds.
pub fn goon_announcement(user_id: u64, secs: u64, came_to: &str) -> (s: String)
    ensures
        s@ == goon_announcement_text(user_id, secs, came_to@),
{
    let mut s = String::new();
    push_mention(&mut s, user_id);
    s.append(" gooned for ");
    let pretty = duration_string(secs);
    s.append(pretty.as_str());
    let phrase = came_to_phrase(came_to);
    s.append(phrase.as_str());
    s.append("!");
    assert(s@ =~= goon_announcement_text(user_id, secs, came_to@));
    s
}

/// A Discord timestamp that shows how long ago, or in how long, the Unix
/// time `secs` is.
pub open spec fn relative_timestamp(secs: u64) -> Seq<char> {
    "<t:"@ + decimal(secs as nat) + ":R>"@
}

/// The prompt the bot shows when a prejac starts at `start_secs`.
pub open spec fn prejac_started_text(user_id: u64, start_secs: u64) -> Seq<char> {
    mention(user_id) + " started stroking "@ + relative_timestamp(start_secs) + "!"@
}

/// The prompt the bot shows when a prejac starts at `start_secs`.
pub fn prejac_started(user_id: u64, start_secs: u64) -> (s: String)
    ensures
        s@ == prejac_started_text(user_id, start_secs),
{
    let mut s = String::new();
    push_mention(&mut s, user_id);
    s.append(" started stroking ");
    s.append("<t:");
    push_decimal(&mut s, start_secs);
    s.append(":R>");
    s.append("!");
    assert(s@ =~= prejac_started_text(user_id, start_secs));
    s
}

/// How long, in seconds, the bot waits for an answer to a prompt.
pub const PROMPT_TIME_LIMIT: u64 = 60;

/// How often, in seconds, the bot looks for an answer to a prompt.
pub const PROMPT_CHECK_INTERVAL: u64 = 2;

/// The Unix time at which the chance to answer a prompt asked at `now`
/// ends: `PROMPT_TIME_LIMIT` seconds later.
pub fn prompt_deadline(now: u64) -> (d: u64)
    requires
        now + PROMPT_TIME_LIMIT <= u64::MAX,
    ensures
        d == now + PROMPT_TIME_LIMIT,
{
    now + PROMPT_TIME_LIMIT
}

/// The line the bot asks a user to repeat, and when the chance ends.
pub open spec fn prompt_me_text(prompt: Seq<char>, deadline: u64) -> Seq<char> {
    "Repeat after me: "@ + prompt + "\nFails in "@ + relative_timestamp(deadline)
}

/// The line the bot asks a user to repeat, and when the chance ends.
pub fn prompt_me_content(prompt: &str, deadline: u64) -> (s: String)
    ensures
        s@ == prompt_me_text(prompt@, deadline),
{
    let mut s = String::new();
    s.append("Repeat after me: ");
    s.append(prompt);
    s.append("\nFails in ");
    s.append("<t:");
    push_decimal(&mut s, deadline);
    s.append(":R>");
    assert(s@ =~= prompt_me_text(prompt@, deadline));
    s
}

/// The message that comes with a user's statistics.
pub open spec fn stats_text(user_id: u64) -> Seq<char> {
    mention(user_id) + "'s gooning statistics!"@
}

/// The message that comes with a user's statistics.
pub fn stats_content(user_id: u64) -> (s: String)
    ensures
        s@ == stats_text(user_id),
{
    let mut s = String::new();
    push_mention(&mut s, user_id);
    s.append("'s gooning statistics!");
    assert(s@ =~= stats_text(user_id));
    s
}

/// Where the bot posts: the channel a server set, if it set one, or else
/// the channel the command came from.
pub fn message_channel(post_channel: Option<u64>, current: u64) -> (c: u64)
    ensures
        c == match post_channel {
            Some(p) => p,
            None => current,
        },
{
    match post_channel {
        Some(p) => p,
        None => current,
    }
}

// ---------------------------------------------------------------------------
// Failures

/// The failures of a command that the bot answers differently.
#[derive(Clone, Copy, Debug, PartialEq, Eq, Structural)]
pub enum CommandFailure {
    /// A check of the command (such as "not already doing something") failed.
    CheckFailed,
    /// The command is for NSFW channels only.
    NsfwOnly,
    /// The command is for servers only.
    GuildOnly,
    /// The command itself returned an error.
    Command,
    /// Any other failure.
    Other,
}

/// What the bot does about a failure.
#[derive(Debug)]
pub enum ErrorAction {
    /// Answer the user privately with this text.
    Reply(String),
    /// Answer the user privately with this text, and log the error.
    ReplyAndLog(String),
    /// Only log a warning that the failure went unmatched.
    WarnUnmatched,
}

/// The text with which the bot answers a failure (none for `Other`).
pub open spec fn failure_text(kind: CommandFailure) -> Seq<char> {
    match kind {
        CommandFailure::CheckFailed => "Looks like you're already up to something!"@,
        CommandFailure::NsfwOnly => "Sorry, this isn't a NSFW channel!"@,
        CommandFailure::GuildOnly => "You can only use this command from within a server."@,
        CommandFailure::Command => "Internal error! Please report this."@,
        CommandFailure::Other => Seq::<char>::empty(),
    }
}

/// `a` is how the bot answers `kind` for any command: a private reply with
/// the failure's text, which is also logged for an error of the command
/// itself, and only a warning for other failures.
pub open spec fn answers(a: ErrorAction, kind: CommandFailure) -> bool {
    match kind {
        CommandFailure::Command => a matches ErrorAction::ReplyAndLog(s) && s@ == failure_text(kind),
        CommandFailure::Other => a is WarnUnmatched,
        _ => a matches ErrorAction::Reply(s) && s@ == failure_text(kind),
    }
}

/// How the bot answers a failure of any command.
pub fn error_action(kind: CommandFailure) -> (a: ErrorAction)
    ensures
        answers(a, kind),
{
    let mut s = String::new();
    match kind {
        CommandFailure::CheckFailed => {
            s.append("Looks like you're already up to something!");
            ErrorAction::Reply(s)
        },
        CommandFailure::NsfwOnly => {
            s.append("Sorry, this isn't a NSFW channel!");
            ErrorAction::Reply(s)
        },
        CommandFailure::GuildOnly => {
            s.append("You can only use this command from within a server.");
            ErrorAction::Reply(s)
        },
        CommandFailure::Command => {
            s.append("Internal error! Please report this.");
            ErrorAction::ReplyAndLog(s)
        },
        CommandFailure::Other => ErrorAction::WarnUnmatched,
    }
}

/// How the bot answers a failure of `/cum`: a failed check means that no
/// gooning session was started; other failures are answered as for any
/// command.
pub fn cum_error_action(kind: CommandFailure) -> (a: ErrorAction)
    ensures
        kind == CommandFailure::CheckFailed ==> (a matches ErrorAction::Reply(s) && s@
            == "You didn't tell me you were gooning!"@),
        kind != CommandFailure::CheckFailed ==> answers(a, kind),
{
    if kind == CommandFailure::CheckFailed {
        let mut s = String::new();
        s.append("You didn't tell me you were gooning!");
        ErrorAction::Reply(s)
    } else {
        error_action(kind)
    }
}

// ---------------------------------------------------------------------------
// Prompts

/// A message read back from a channel: who wrote it, and what it says.
pub struct ChannelMessage {
    pub author: u64,
    pub content: String,
}

/// The messages as (author, text) pairs.
pub open spec fn messages_view(v: Seq<ChannelMessage>) -> Seq<(u64, Seq<char>)> {
    v.map_values(|m: ChannelMessage| (m.author, m.content@))
}

/// A message by `author` that comes close enough to `prompt`.
pub open spec fn is_candidate(prompt: Seq<char>, m: (u64, Seq<char>), author: u64) -> bool {
    m.0 == author && similarity(prompt, m.1) != Similarity::Dissimilar
}

/// The first candidate at or after index `i`.
pub open spec fn first_candidate(
    prompt: Seq<char>,
    msgs: Seq<(u64, Seq<char>)>,
    author: u64,
    i: int,
) -> Option<int>
    decreases msgs.len() - i,
{
    if i < 0 || i >= msgs.len() {
        None
    } else if is_candidate(prompt, msgs[i], author) {
        Some(i)
    } else {
        first_candidate(prompt, msgs, author, i + 1)
    }
}

/// The answer to a prompt that the bot accepts among `msgs`: the first
/// message of `author` that is not dissimilar to `prompt`, with its index,
/// its distance to the prompt (zero for an exact repeat) and the length of
/// the prompt.
pub open spec fn prompt_response(prompt: Seq<char>, msgs: Seq<(u64, Seq<char>)>, author: u64) -> Option<
    (int, int, int),
> {
    match first_candidate(prompt, msgs, author, 0) {
        None => None,
        Some(i) => match similarity(prompt, msgs[i].1) {
            Similarity::Similar { distance, length } => Some((i, distance as int, length as int)),
            _ => Some((i, 0, prompt.len() as int)),
        },
    }
}

/// An accepted answer to a prompt.
pub struct PromptMatch {
    /// Index of the message among those read back.
    pub index: usize,
    /// Levenshtein distance between the prompt and the message.
    pub distance: usize,
    /// Length of the prompt in characters.
    pub length: usize,
}

/// Looks among the messages read back for `author`'s answer to `prompt`.
pub fn find_prompt_response(prompt: &str, messages: &Vec<ChannelMessage>, author: u64) -> (r: Option<
    PromptMatch,
>)
    ensures
        match r {
            None => prompt_response(prompt@, messages_view(messages@), author) is None,
            Some(m) => prompt_response(prompt@, messages_view(messages@), author) == Some(
                (m.index as int, m.distance as int, m.length as int),
            ),
        },
{
    let ghost msgs = messages_view(messages@);
    let mut i: usize = 0;
    while i < messages.len()
        invariant
            i <= messages.len(),
            msgs == messages_view(messages@),
            first_candidate(prompt@, msgs, author, 0) == first_candidate(prompt@, msgs, author, i as int),
        decreases messages.len() - i,
    {
        let m = &messages[i];
        assert(msgs[i as int] == (m.author, m.content@));
        if m.author == author {
            match edit_distance(prompt, m.content.as_str()) {
                Similarity::Dissimilar => {},
                Similarity::Similar { distance, length } => {
                    return Some(PromptMatch { index: i, distance, length });
                },
                Similarity::Identical => {
                    let length = chars_of(prompt).len();
                    return Some(PromptMatch { index: i, distance: 0, length });
                },
            }
        }
        i = i + 1;
    }
    None
}

/// `msgs[k]` is a message of `author` that is not dissimilar to `prompt`.
pub open spec fn close_message_of(prompt: Seq<char>, msgs: Seq<(u64, Seq<char>)>, author: u64, k: int) -> bool {
    msgs[k].0 == author && similarity(prompt, msgs[k].1) != Similarity::Dissimilar
}

proof fn lemma_first_candidate(prompt: Seq<char>, msgs: Seq<(u64, Seq<char>)>, author: u64, i: int)
    requires
        0 <= i <= msgs.len(),
    ensures
        match first_candidate(prompt, msgs, author, i) {
            Some(j) => i <= j < msgs.len() && close_message_of(prompt, msgs, author, j) && forall|k: int|
                i <= k < j ==> !close_message_of(prompt, msgs, author, k),
            None => forall|k: int| i <= k < msgs.len() ==> !close_message_of(prompt, msgs, author, k),
        },
    decreases msgs.len() - i,
{
    if i < msgs.len() && !is_candidate(prompt, msgs[i], author) {
        lemma_first_candidate(prompt, msgs, author, i + 1);
    }
}

/// The answer the bot takes is the first message of `author`, counting from
/// the first message read back, that is not dissimilar to the prompt; it
/// carries the prompt's length and the distance between the two (zero for
/// an exact repeat). There is no answer only when no message qualifies.
pub proof fn answer_is_first_close_message(prompt: Seq<char>, msgs: Seq<(u64, Seq<char>)>, author: u64)
    requires
        prompt.len() <= usize::MAX,
        forall|k: int| 0 <= k < msgs.len() ==> (#[trigger] msgs[k]).1.len() <= usize::MAX,
    ensures
        match prompt_response(prompt, msgs, author) {
            Some((i, d, l)) => {
                &&& 0 <= i < msgs.len()
                &&& msgs[i].0 == author
                &&& similarity(prompt, msgs[i].1) != Similarity::Dissimilar
                &&& forall|k: int| 0 <= k < i ==> !close_message_of(prompt, msgs, author, k)
                &&& l == prompt.len()
                &&& d == if msgs[i].1 == prompt { 0 } else { levenshtein(prompt, msgs[i].1) as int }
            },
            None => forall|k: int| 0 <= k < msgs.len() ==> !close_message_of(prompt, msgs, author, k),
        },
{
    lemma_first_candidate(prompt, msgs, author, 0);
    match first_candidate(prompt, msgs, author, 0) {
        Some(i) => {
            let m = msgs[i].1;
            assert(m.len() <= usize::MAX);
            lemma_lev_bounded(prompt, m, prompt.len(), m.len());
        },
        None => {},
    }
}

/// The prejac announcement starts with the mention of the whole `user_id`,
/// and announcements of different users differ.
pub proof fn prejac_announcement_names_user(
    u: u64,
    secs: u64,
    came_to: Seq<char>,
    v: u64,
    secs2: u64,
    came_to2: Seq<char>,
)
    ensures
        prejac_announcement_text(u, secs, came_to).take(("<@"@ + decimal(u as nat) + ">"@).len() as int)
            == "<@"@ + decimal(u as nat) + ">"@,
        prejac_announcement_text(u, secs, came_to) == prejac_announcement_text(v, secs2, came_to2) ==> u
            == v,
{
    let r1 = " came in "@ + duration_text(secs as nat) + came_to_text(came_to) + "!"@;
    let r2 = " came in "@ + duration_text(secs2 as nat) + came_to_text(came_to2) + "!"@;
    assert(prejac_announcement_text(u, secs, came_to) =~= mention(u) + r1);
    assert(prejac_announcement_text(v, secs2, came_to2) =~= mention(v) + r2);
    mention_leads(u, r1);
    if prejac_announcement_text(u, secs, came_to) == prejac_announcement_text(v, secs2, came_to2) {
        mention_reads_back(u, v, r1, r2);
    }
}

/// The gooning announcement starts with the mention of the whole `user_id`,
/// and announcements of different users differ.
pub proof fn goon_announcement_names_user(
    u: u64,
    secs: u64,
    came_to: Seq<char>,
    v: u64,
    secs2: u64,
    came_to2: Seq<char>,
)
    ensures
        goon_announcement_text(u, secs, came_to).take(("<@"@ + decimal(u as nat) + ">"@).len() as int)
            == "<@"@ + decimal(u as nat) + ">"@,
        goon_announcement_text(u, secs, came_to) == goon_announcement_text(v, secs2, came_to2) ==> u
            == v,
{
    let r1 = " gooned for "@ + duration_text(secs as nat) + came_to_text(came_to) + "!"@;
    let r2 = " gooned for "@ + duration_text(secs2 as nat) + came_to_text(came_to2) + "!"@;
    assert(goon_announcement_text(u, secs, came_to) =~= mention(u) + r1);
    assert(goon_announcement_text(v, secs2, came_to2) =~= mention(v) + r2);
    mention_leads(u, r1);
    if goon_announcement_text(u, secs, came_to) == goon_announcement_text(v, secs2, came_to2) {
        mention_reads_back(u, v, r1, r2);
    }
}

/// The prejac prompt starts with the mention of the whole `user_id`, and
/// prompts for different users differ.
pub proof fn prejac_started_names_user(u: u64, start: u64, v: u64, start2: u64)
    ensures
        prejac_started_text(u, start).take(("<@"@ + decimal(u as nat) + ">"@).len() as int) == "<@"@
            + decimal(u as nat) + ">"@,
        prejac_started_text(u, start) == prejac_started_text(v, start2) ==> u == v,
{
    let r1 = " started stroking "@ + relative_timestamp(start) + "!"@;
    let r2 = " started stroking "@ + relative_timestamp(start2) + "!"@;
    assert(prejac_started_text(u, start) =~= mention(u) + r1);
    assert(prejac_started_text(v, start2) =~= mention(v) + r2);
    mention_leads(u, r1);
    if prejac_started_text(u, start) == prejac_started_text(v, start2) {
        mention_reads_back(u, v, r1, r2);
    }
}

/// The statistics message starts with the mention of the whole `user_id`,
/// and messages for different users differ.
pub proof fn stats_content_names_user(u: u64, v: u64)
    ensures
        stats_text(u).take(("<@"@ + decimal(u as nat) + ">"@).len() as int) == "<@"@ + decimal(
            u as nat,
        ) + ">"@,
        stats_text(u) == stats_text(v) ==> u == v,
{
    let r = "'s gooning statistics!"@;
    mention_leads(u, r);
    if stats_text(u) == stats_text(v) {
        mention_reads_back(u, v, r, r);
    }
}

} // verus!
