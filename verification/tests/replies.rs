use rk9::commands::{
    came_to_phrase, cum_error_action, error_action, find_prompt_response, goon_announcement,
    message_channel, prejac_announcement, prejac_started, prompt_me_content, stats_content,
    ChannelMessage, CommandFailure, ErrorAction,
};

const PROMPT: &str = "Furry porn has ruined me forever NGGGGGHHHH";

fn reply_text(a: ErrorAction) -> Option<String> {
    match a {
        ErrorAction::Reply(s) => Some(s),
        _ => None,
    }
}

#[test]
fn came_to_phrases() {
    assert_eq!(came_to_phrase(""), "****.");
    assert_eq!(came_to_phrase("feet"), " to **feet**");
}

#[test]
fn announcements() {
    assert_eq!(prejac_announcement(42, 65, ""), "<@42> came in 1 minutes, 5 seconds****.!");
    assert_eq!(prejac_announcement(42, 5, "tails"), "<@42> came in 5 seconds to **tails**!");
    assert_eq!(goon_announcement(7, 3600, "art"), "<@7> gooned for 1 hours to **art**!");
    assert_eq!(goon_announcement(7, 0, ""), "<@7> gooned for Instantly?!****.!");
}

#[test]
fn started_and_prompt_contents() {
    assert_eq!(prejac_started(9, 1700000000), "<@9> started stroking <t:1700000000:R>!");
    assert_eq!(
        prompt_me_content("hi there", 1700000060),
        "Repeat after me: hi there\nFails in <t:1700000060:R>"
    );
    assert_eq!(stats_content(123), "<@123>'s gooning statistics!");
}

#[test]
fn post_channel_choice() {
    assert_eq!(message_channel(Some(5), 9), 5);
    assert_eq!(message_channel(None, 9), 9);
}

#[test]
fn failure_replies() {
    assert_eq!(
        reply_text(error_action(CommandFailure::CheckFailed)).unwrap(),
        "Looks like you're already up to something!"
    );
    assert_eq!(
        reply_text(error_action(CommandFailure::NsfwOnly)).unwrap(),
        "Sorry, this isn't a NSFW channel!"
    );
    assert_eq!(
        reply_text(error_action(CommandFailure::GuildOnly)).unwrap(),
        "You can only use this command from within a server."
    );
    match error_action(CommandFailure::Command) {
        ErrorAction::ReplyAndLog(s) => assert_eq!(s, "Internal error! Please report this."),
        other => panic!("unexpected {:?}", other),
    }
    assert!(matches!(error_action(CommandFailure::Other), ErrorAction::WarnUnmatched));
}

#[test]
fn cum_failure_replies() {
    assert_eq!(
        reply_text(cum_error_action(CommandFailure::CheckFailed)).unwrap(),
        "You didn't tell me you were gooning!"
    );
    assert_eq!(
        reply_text(cum_error_action(CommandFailure::NsfwOnly)).unwrap(),
        "Sorry, this isn't a NSFW channel!"
    );
    assert!(matches!(cum_error_action(CommandFailure::Other), ErrorAction::WarnUnmatched));
}

fn msg(author: u64, content: &str) -> ChannelMessage {
    ChannelMessage { author, content: content.to_string() }
}

#[test]
fn prompt_answer_found() {
    let msgs = vec![
        msg(2, "Furry porn has ruined me forever NGGGGGHHH"),
        msg(1, "something else entirely"),
        msg(1, "Furry porn has ruined me forever NGGGGGHHH"),
    ];
    let m = find_prompt_response(PROMPT, &msgs, 1).unwrap();
    assert_eq!((m.index, m.distance, m.length), (2, 1, 43));
}

#[test]
fn prompt_answer_absent() {
    let msgs = vec![msg(1, "nope"), msg(2, PROMPT)];
    assert!(find_prompt_response(PROMPT, &msgs, 1).is_none());
    assert!(find_prompt_response(PROMPT, &Vec::new(), 1).is_none());
}

#[test]
fn exact_repeat_is_taken() {
    let msgs = vec![msg(2, PROMPT), msg(1, PROMPT), msg(1, "Furry porn has ruined me forever NGGGGGHHH")];
    let m = find_prompt_response(PROMPT, &msgs, 1).unwrap();
    assert_eq!((m.index, m.distance, m.length), (1, 0, 43));
}

#[test]
fn prompt_deadline_is_a_minute_later() {
    assert_eq!(rk9::commands::prompt_deadline(1_700_000_000), 1_700_000_060);
    assert_eq!(rk9::commands::PROMPT_TIME_LIMIT, 60);
}
