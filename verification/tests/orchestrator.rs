use async_openai::error::OpenAIError;
use debateai_core::debate_format::{get_format, DebateFormat, DebateSection, PresidentialDebateFormat};
use debateai_core::error::DebateError;
use debateai_core::completion::{
    backoff_delay, first_choice_content, CompletionAttempts, Verdict, CONNECT_TIMEOUT_SECS,
    MAX_TRANSPORT_ATTEMPTS, REQUEST_TIMEOUT_SECS,
};
use debateai_core::orchestrator::{
    substantive, system_prompt_for, Action, DebateConfig, DebateOrchestrator, Phase,
    RequestReason, Step,
};
use debateai_core::participant::{AIParticipant, ParticipantRole};
use debateai_core::transcript::{ChatMessage, ChatRole, DebateEvent, DebateMessage};

fn config() -> DebateConfig {
    DebateConfig::new("Should tabs replace spaces?", "http://localhost:1234/v1", "SECRET-REDACTED")
}

fn two_participants() -> Vec<AIParticipant> {
    vec![
        AIParticipant::new("Alice", "model-a", ParticipantRole::For),
        AIParticipant::new("Bob", "model-b", ParticipantRole::Against),
    ]
}

fn presidential(rounds: u32) -> Box<dyn DebateFormat> {
    Box::new(PresidentialDebateFormat::new(rounds))
}

fn orchestrator(rounds: u32) -> DebateOrchestrator {
    DebateOrchestrator::new(config(), two_participants(), presidential(rounds)).unwrap()
}

fn history(o: &DebateOrchestrator, index: usize) -> Vec<(ChatRole, String)> {
    o.history(index).unwrap().iter().map(|m| (m.role, m.content.clone())).collect()
}

fn event_text(event: &DebateEvent) -> String {
    match event {
        DebateEvent::SectionStart { name, description } => format!("section:{}|{}", name, description),
        DebateEvent::SpeakerStart { name, role } => format!("speaker:{}|{}", name, role),
        DebateEvent::SpeakerMessage { name, content } => format!("message:{}|{}", name, content),
        DebateEvent::DebateEnd => "end".to_string(),
    }
}

fn events(step: &Step) -> Vec<String> {
    step.events.iter().map(event_text).collect()
}

fn request(step: &Step) -> (u64, usize, u32, RequestReason) {
    match &step.action {
        Action::Request { delay_secs, speaker, max_tokens, reason } => {
            (*delay_secs, *speaker, *max_tokens, *reason)
        }
        other => panic!("expected a request, got {:?}", other),
    }
}

/// A completion client that hands out scripted responses and counts its calls.
struct Script {
    responses: Vec<Result<String, String>>,
    calls: usize,
    slept: Vec<u64>,
}

impl Script {
    fn new(responses: Vec<Result<String, String>>) -> Self {
        Script { responses, calls: 0, slept: Vec::new() }
    }

    fn answering(texts: &[&str]) -> Self {
        Script::new(texts.iter().map(|t| Ok(t.to_string())).collect())
    }

    /// Runs the debate to its end, as a caller of the library does.
    fn run(
        &mut self,
        o: &mut DebateOrchestrator,
        seen: &mut Vec<String>,
    ) -> Result<Vec<DebateMessage>, DebateError> {
        let mut step = o.start();
        loop {
            seen.extend(events(&step));
            match step.action {
                Action::Finished => return Ok(o.transcript().to_vec()),
                Action::Failed(error) => return Err(error),
                Action::Request { delay_secs, .. } => {
                    if delay_secs > 0 {
                        self.slept.push(delay_secs);
                    }
                    let index = self.calls.min(self.responses.len() - 1);
                    self.calls += 1;
                    step = match &self.responses[index] {
                        Ok(text) => o.on_response(text),
                        Err(detail) => o.on_failure(OpenAIError::InvalidArgument(detail.clone())),
                    };
                }
            }
        }
    }
}

#[test]
fn construction_fails_outside_participant_bounds() {
    let one = vec![AIParticipant::new("Alice", "m", ParticipantRole::For)];
    match DebateOrchestrator::new(config(), one, presidential(6)) {
        Err(DebateError::InvalidParticipantCount { min, max, actual }) => {
            assert_eq!((min, max, actual), (2, 2, 1));
        }
        _ => panic!("one participant must be refused"),
    }

    let mut three = two_participants();
    three.push(AIParticipant::new("Carol", "m", ParticipantRole::Neutral));
    match DebateOrchestrator::new(config(), three, presidential(6)) {
        Err(DebateError::InvalidParticipantCount { min, max, actual }) => {
            assert_eq!((min, max, actual), (2, 2, 3));
        }
        _ => panic!("three participants must be refused"),
    }

    match DebateOrchestrator::new(config(), Vec::new(), presidential(6)) {
        Err(error) => assert_eq!(
            error.message(),
            "Invalid participant count: expected 2-2, got 0"
        ),
        Ok(_) => panic!("no participant must be refused"),
    }

    assert!(DebateOrchestrator::new(config(), two_participants(), presidential(6)).is_ok());
}

#[test]
fn construction_with_a_format_from_the_registry() {
    let format = get_format("presidential", 4).unwrap();
    let o = DebateOrchestrator::new(config(), two_participants(), format).unwrap();
    assert_eq!(o.sections().len(), 4);
    assert_eq!(o.participants().len(), 2);
    assert_eq!(o.phase(), Phase::Ready);
    assert!(o.transcript().is_empty());
    assert_eq!(o.config().topic, "Should tabs replace spaces?");
    assert_eq!(o.config().api_base, "http://localhost:1234/v1");
}

#[test]
fn histories_open_with_the_system_message() {
    let o = orchestrator(4);
    let format = PresidentialDebateFormat::new(4);
    let first = history(&o, 0);
    let second = history(&o, 1);
    assert_eq!(
        first,
        vec![(
            ChatRole::System,
            format.system_prompt("Should tabs replace spaces?", "Alice (FOR)", "Bob")
        )]
    );
    assert_eq!(
        second,
        vec![(
            ChatRole::System,
            format.system_prompt("Should tabs replace spaces?", "Bob (AGAINST)", "Alice")
        )]
    );
    assert!(o.history(2).is_none());
}

#[test]
fn custom_system_prompt_replaces_the_generated_one() {
    let participants = vec![
        AIParticipant::new("Alice", "m", ParticipantRole::For).with_system_prompt("Be brief."),
        AIParticipant::new("Bob", "m", ParticipantRole::Against),
    ];
    let o = DebateOrchestrator::new(config(), participants, presidential(4)).unwrap();
    assert_eq!(history(&o, 0), vec![(ChatRole::System, "Be brief.".to_string())]);
    assert!(history(&o, 1)[0].1.contains("Your opponent is Alice."));
}

#[test]
fn start_announces_the_first_section_and_speaker() {
    let mut o = orchestrator(4);
    let step = o.start();
    assert_eq!(
        events(&step),
        vec![
            "section:Opening Statements|Each candidate presents their initial position on the topic.",
            "speaker:Alice|FOR",
        ]
    );
    assert_eq!(request(&step), (0, 0, 300, RequestReason::FirstAttempt));
    assert_eq!(o.phase(), Phase::AwaitingCompletion);
    let first = history(&o, 0);
    assert_eq!(first.len(), 2);
    assert_eq!(
        first[1],
        (
            ChatRole::User,
            "[Opening Statements - Each candidate presents their initial position on the topic.]\nPlease provide your opening statements.".to_string()
        )
    );
    assert_eq!(history(&o, 1).len(), 1);
}

#[test]
fn accepted_answer_is_recorded_and_broadcast() {
    let mut o = orchestrator(4);
    o.start();
    let step = o.on_response("<thinking>hm</thinking>Tabs are   *clearly* better.");
    assert_eq!(
        events(&step),
        vec!["message:Alice|Tabs are clearly better.", "speaker:Bob|AGAINST"]
    );
    assert_eq!(request(&step), (0, 1, 300, RequestReason::FirstAttempt));

    let transcript = o.transcript();
    assert_eq!(transcript.len(), 1);
    assert_eq!(transcript[0].section, "Opening Statements");
    assert_eq!(transcript[0].speaker_index, 0);
    assert_eq!(transcript[0].speaker_name, "Alice");
    assert_eq!(transcript[0].content, "Tabs are clearly better.");

    let first = history(&o, 0);
    assert_eq!(first.len(), 3);
    assert_eq!(first[2], (ChatRole::Assistant, "Tabs are clearly better.".to_string()));

    let second = history(&o, 1);
    assert_eq!(second.len(), 3);
    assert_eq!(
        second[1],
        (ChatRole::User, "[Opponent Alice said]: Tabs are clearly better.".to_string())
    );
    assert_eq!(second[2].0, ChatRole::User);
    assert!(second[2].1.starts_with("[Opening Statements - "));
}

#[test]
fn three_empty_responses_end_the_debate() {
    let mut o = orchestrator(4);
    let mut script = Script::answering(&[""]);
    let mut seen = Vec::new();
    let result = script.run(&mut o, &mut seen);
    match result {
        Err(DebateError::ConfigError(detail)) => assert_eq!(
            detail,
            "AI participant 'Alice' returned empty response after 3 retries. Debate cannot continue."
        ),
        _ => panic!("the debate must fail"),
    }
    assert_eq!(script.calls, 3);
    assert_eq!(script.slept, vec![2, 2]);
    assert_eq!(o.phase(), Phase::Failed);
    assert!(o.transcript().is_empty());
    assert_eq!(seen.len(), 2);
    // The request of the open turn stays in the history; nothing else was added.
    assert_eq!(history(&o, 0).len(), 2);
    assert_eq!(history(&o, 1).len(), 1);
}

#[test]
fn empty_then_usable_response_takes_the_second() {
    let mut o = orchestrator(4);
    o.start();
    let retry = o.on_response("   ");
    assert!(retry.events.is_empty());
    assert_eq!(request(&retry), (2, 0, 300, RequestReason::EmptyResponse { attempt: 1 }));
    assert_eq!(history(&o, 0).len(), 2);

    let step = o.on_response("A proper opening statement.");
    assert_eq!(events(&step)[0], "message:Alice|A proper opening statement.");
    assert_eq!(o.transcript().len(), 1);
    assert_eq!(o.transcript()[0].content, "A proper opening statement.");
    assert_eq!(request(&step), (0, 1, 300, RequestReason::FirstAttempt));
}

#[test]
fn scripted_client_is_called_twice_for_one_retry() {
    let mut o = orchestrator(4);
    let mut script = Script::answering(&["", "A long enough statement for the record."]);
    let mut seen = Vec::new();
    let transcript = script.run(&mut o, &mut seen).unwrap();
    assert_eq!(transcript.len(), 8);
    assert_eq!(script.calls, 9);
    assert_eq!(script.slept, vec![2]);
    assert_eq!(transcript[0].content, "A long enough statement for the record.");
}

#[test]
fn short_answers_count_as_empty() {
    assert!(!substantive(""));
    assert!(!substantive("0123456789"));
    assert!(substantive("0123456789a"));
    assert!(!substantive("   0123456789   "));
    assert!(substantive("  0123456789a  "));
    // Length is counted in characters.
    assert!(!substantive("äöüäöüäöüä"));
    assert!(substantive("äöüäöüäöüäö"));
}

#[test]
fn second_empty_response_is_the_second_retry() {
    let mut o = orchestrator(4);
    o.start();
    let first = o.on_response("short");
    assert_eq!(request(&first), (2, 0, 300, RequestReason::EmptyResponse { attempt: 1 }));
    let second = o.on_response("<think>only reasoning</think>");
    assert_eq!(request(&second), (2, 0, 300, RequestReason::EmptyResponse { attempt: 2 }));
    let third = o.on_response("*");
    assert!(matches!(third.action, Action::Failed(DebateError::ConfigError(_))));
}

#[test]
fn transport_failures_back_off_and_then_fail() {
    let mut o = orchestrator(4);
    o.start();
    let first = o.on_failure(OpenAIError::InvalidArgument("one".to_string()));
    assert!(first.events.is_empty());
    assert_eq!(request(&first), (2, 0, 300, RequestReason::TransportFailure { attempt: 1 }));
    let second = o.on_failure(OpenAIError::InvalidArgument("two".to_string()));
    assert_eq!(request(&second), (4, 0, 300, RequestReason::TransportFailure { attempt: 2 }));
    let third = o.on_failure(OpenAIError::InvalidArgument("three".to_string()));
    match third.action {
        Action::Failed(DebateError::OpenAIError(OpenAIError::InvalidArgument(detail))) => {
            assert_eq!(detail, "three")
        }
        other => panic!("expected the last failure, got {:?}", other),
    }
    assert_eq!(o.phase(), Phase::Failed);
}

#[test]
fn transport_attempts_start_over_after_an_empty_response() {
    let mut o = orchestrator(4);
    o.start();
    o.on_failure(OpenAIError::InvalidArgument("one".to_string()));
    o.on_failure(OpenAIError::InvalidArgument("two".to_string()));
    let retry = o.on_response("");
    assert_eq!(request(&retry), (2, 0, 300, RequestReason::EmptyResponse { attempt: 1 }));
    let again = o.on_failure(OpenAIError::InvalidArgument("three".to_string()));
    assert_eq!(request(&again), (2, 0, 300, RequestReason::TransportFailure { attempt: 1 }));
}

#[test]
fn a_turn_takes_at_most_nine_calls() {
    let mut o = orchestrator(4);
    let mut script = Script::new(vec![
        Err("a".to_string()),
        Err("b".to_string()),
        Ok("".to_string()),
        Err("c".to_string()),
        Err("d".to_string()),
        Ok("".to_string()),
        Err("e".to_string()),
        Err("f".to_string()),
        Ok("".to_string()),
    ]);
    let mut seen = Vec::new();
    let result = script.run(&mut o, &mut seen);
    assert!(matches!(result, Err(DebateError::ConfigError(_))));
    assert_eq!(script.calls, 9);
    assert_eq!(script.slept, vec![2, 4, 2, 2, 4, 2, 2, 4]);
}

#[test]
fn backoff_doubles_from_two_seconds() {
    assert_eq!(backoff_delay(0), 0);
    assert_eq!(backoff_delay(1), 2);
    assert_eq!(backoff_delay(2), 4);
}

#[test]
fn completion_attempts_give_up_at_the_third_failure() {
    let mut attempts = CompletionAttempts::new();
    assert_eq!(attempts.failed(), 0);
    assert_eq!(attempts.record_failure(), Verdict::Retry { delay_secs: 2, attempt: 1 });
    assert_eq!(attempts.failed(), 1);
    assert_eq!(attempts.record_failure(), Verdict::Retry { delay_secs: 4, attempt: 2 });
    assert_eq!(attempts.failed(), 2);
    assert_eq!(attempts.record_failure(), Verdict::GiveUp);
    assert_eq!(attempts.failed(), 2);
    assert_eq!(MAX_TRANSPORT_ATTEMPTS, 3);
    assert_eq!(REQUEST_TIMEOUT_SECS, 120);
    assert_eq!(CONNECT_TIMEOUT_SECS, 30);
}

#[test]
fn response_text_is_the_content_of_the_first_choice() {
    assert_eq!(first_choice_content(vec![Some("one".to_string()), Some("two".to_string())]), "one");
    assert_eq!(first_choice_content(vec![None, Some("two".to_string())]), "");
    assert_eq!(first_choice_content(vec![Some(String::new())]), "");
    assert_eq!(first_choice_content(Vec::new()), "");
}

#[test]
fn full_run_of_four_rounds() {
    let mut o = orchestrator(4);
    let mut script = Script::answering(&["This statement is long enough to be accepted."]);
    let mut seen = Vec::new();
    let transcript = script.run(&mut o, &mut seen).unwrap();
    assert_eq!(script.calls, 8);
    assert!(script.slept.is_empty());
    assert_eq!(o.phase(), Phase::Finished);

    let turns: Vec<(String, usize, String)> = transcript
        .iter()
        .map(|m| (m.section.clone(), m.speaker_index, m.speaker_name.clone()))
        .collect();
    let expected = vec![
        ("Opening Statements", 0, "Alice"),
        ("Opening Statements", 1, "Bob"),
        ("Main Arguments - Round 1", 0, "Alice"),
        ("Main Arguments - Round 1", 1, "Bob"),
        ("Rebuttals", 1, "Bob"),
        ("Rebuttals", 0, "Alice"),
        ("Closing Statements", 0, "Alice"),
        ("Closing Statements", 1, "Bob"),
    ];
    assert_eq!(turns.len(), expected.len());
    for (got, want) in turns.iter().zip(expected.iter()) {
        assert_eq!((got.0.as_str(), got.1, got.2.as_str()), *want);
    }
    for message in &transcript {
        assert_eq!(message.content, "This statement is long enough to be accepted.");
    }

    // One system message, two entries for each own turn, one observation
    // for each turn of the other.
    for index in 0..2 {
        let entries = history(&o, index);
        assert_eq!(entries.len(), 1 + 2 * 4 + 4);
        assert_eq!(entries[0].0, ChatRole::System);
        let observations = entries.iter().filter(|(_, text)| text.starts_with("[Opponent ")).count();
        assert_eq!(observations, 4);
        let own = entries.iter().filter(|(role, _)| *role == ChatRole::Assistant).count();
        assert_eq!(own, 4);
    }
    let other = if true { "Bob" } else { "" };
    assert!(history(&o, 0)
        .iter()
        .filter(|(_, text)| text.starts_with("[Opponent "))
        .all(|(_, text)| text.starts_with(&format!("[Opponent {} said]: ", other))));

    let sections = seen.iter().filter(|e| e.starts_with("section:")).count();
    let speakers = seen.iter().filter(|e| e.starts_with("speaker:")).count();
    let messages = seen.iter().filter(|e| e.starts_with("message:")).count();
    assert_eq!((sections, speakers, messages), (4, 8, 8));
    assert_eq!(seen.last().unwrap(), "end");
    assert_eq!(seen.iter().filter(|e| *e == "end").count(), 1);
    assert_eq!(seen.len(), 4 + 8 + 8 + 1);
    assert_eq!(&seen[0..3], &[
        "section:Opening Statements|Each candidate presents their initial position on the topic.".to_string(),
        "speaker:Alice|FOR".to_string(),
        "message:Alice|This statement is long enough to be accepted.".to_string(),
    ]);
}

#[test]
fn history_of_the_first_speaker_after_two_turns() {
    let mut o = orchestrator(4);
    o.start();
    o.on_response("First statement of Alice.");
    o.on_response("First statement of Bob.");
    let first = history(&o, 0);
    let roles: Vec<ChatRole> = first.iter().map(|(role, _)| *role).collect();
    assert_eq!(
        roles,
        vec![ChatRole::System, ChatRole::User, ChatRole::Assistant, ChatRole::User, ChatRole::User]
    );
    assert_eq!(first[2].1, "First statement of Alice.");
    assert_eq!(first[3].1, "[Opponent Bob said]: First statement of Bob.");
    assert_eq!(
        first[4].1,
        "[Main Arguments - Round 1 - Candidates elaborate on their positions with supporting arguments.]\nPlease provide your main arguments - round 1."
    );
}

fn panel_sections() -> Vec<DebateSection> {
    vec![
        DebateSection {
            name: "Warm Up".to_string(),
            description: "Nobody speaks.".to_string(),
            speaker_order: vec![7, 9],
            max_tokens: 10,
        },
        DebateSection {
            name: "Round".to_string(),
            description: "Everybody speaks, some twice.".to_string(),
            speaker_order: vec![2, 5, 0, 2, 1],
            max_tokens: 77,
        },
        DebateSection {
            name: "Silence".to_string(),
            description: "".to_string(),
            speaker_order: vec![],
            max_tokens: 1,
        },
    ]
}

#[test]
fn speakers_out_of_range_are_skipped() {
    let people = vec![
        AIParticipant::new("A", "m", ParticipantRole::For),
        AIParticipant::new("B", "m", ParticipantRole::Against),
        AIParticipant::new("C", "m", ParticipantRole::Neutral),
    ];
    let prompts = vec!["you are A".to_string(), "you are B".to_string(), "you are C".to_string()];
    let mut o = DebateOrchestrator::from_parts(config(), people, panel_sections(), prompts);
    assert_eq!(history(&o, 0), vec![(ChatRole::System, "you are A".to_string())]);
    assert_eq!(history(&o, 1), vec![(ChatRole::System, "you are B".to_string())]);
    assert_eq!(history(&o, 2), vec![(ChatRole::System, "you are C".to_string())]);

    let mut script = Script::answering(&["Something worth saying here."]);
    let mut seen = Vec::new();
    let transcript = script.run(&mut o, &mut seen).unwrap();
    let speakers: Vec<usize> = transcript.iter().map(|m| m.speaker_index).collect();
    assert_eq!(speakers, vec![2, 0, 2, 1]);
    assert!(transcript.iter().all(|m| m.section == "Round"));
    assert_eq!(
        seen,
        vec![
            "section:Warm Up|Nobody speaks.",
            "section:Round|Everybody speaks, some twice.",
            "speaker:C|NEUTRAL",
            "message:C|Something worth saying here.",
            "speaker:A|FOR",
            "message:A|Something worth saying here.",
            "speaker:C|NEUTRAL",
            "message:C|Something worth saying here.",
            "speaker:B|AGAINST",
            "message:B|Something worth saying here.",
            "section:Silence|",
            "end",
        ]
    );
    // C spoke twice and heard two others; A and B spoke once and heard three.
    assert_eq!(history(&o, 2).len(), 1 + 2 * 2 + 2);
    assert_eq!(history(&o, 0).len(), 1 + 2 + 3);
    assert_eq!(history(&o, 1).len(), 1 + 2 + 3);
    let tokens: Vec<u32> = vec![77];
    assert!(o.sections().iter().filter(|s| s.name == "Round").map(|s| s.max_tokens).eq(tokens));
}

#[test]
fn requests_carry_the_budget_of_their_section() {
    let people = vec![
        AIParticipant::new("A", "m", ParticipantRole::For),
        AIParticipant::new("B", "m", ParticipantRole::Against),
        AIParticipant::new("C", "m", ParticipantRole::Neutral),
    ];
    let prompts = vec![String::new(), String::new(), String::new()];
    let mut o = DebateOrchestrator::from_parts(config(), people, panel_sections(), prompts);
    let step = o.start();
    assert_eq!(request(&step), (0, 2, 77, RequestReason::FirstAttempt));
}

#[test]
fn a_single_turn_debate() {
    let people = vec![AIParticipant::new("Solo", "m", ParticipantRole::For)];
    let mut o =
        DebateOrchestrator::from_parts(config(), people, panel_sections(), vec!["p".to_string()]);
    let step = o.start();
    // Only index 0 exists, and the panel lets it speak once.
    assert_eq!(
        events(&step),
        vec![
            "section:Warm Up|Nobody speaks.",
            "section:Round|Everybody speaks, some twice.",
            "speaker:Solo|FOR"
        ]
    );
    let step = o.on_response("The only statement of this debate.");
    assert_eq!(
        events(&step),
        vec!["message:Solo|The only statement of this debate.", "section:Silence|", "end"]
    );
    assert!(matches!(step.action, Action::Finished));
    assert_eq!(o.phase(), Phase::Finished);
    assert_eq!(history(&o, 0).len(), 3);
}

#[test]
fn a_plan_without_turns_ends_at_once() {
    let mut o = DebateOrchestrator::from_parts(config(), Vec::new(), panel_sections(), Vec::new());
    let step = o.start();
    assert_eq!(
        events(&step),
        vec![
            "section:Warm Up|Nobody speaks.",
            "section:Round|Everybody speaks, some twice.",
            "section:Silence|",
            "end"
        ]
    );
    assert!(matches!(step.action, Action::Finished));
    assert!(o.transcript().is_empty());

    let mut o = DebateOrchestrator::from_parts(config(), two_participants(), Vec::new(), vec![
        String::new(),
        String::new(),
    ]);
    let step = o.start();
    assert_eq!(events(&step), vec!["end"]);
    assert!(matches!(step.action, Action::Finished));
}

#[test]
fn opponent_of_each_participant() {
    let format = PresidentialDebateFormat::new(4);
    let three = vec![
        AIParticipant::new("A", "m", ParticipantRole::For),
        AIParticipant::new("B", "m", ParticipantRole::Against),
        AIParticipant::new("C", "m", ParticipantRole::Neutral).with_system_prompt("mine"),
    ];
    assert_eq!(
        system_prompt_for(&format, "t", &three, 0),
        format.system_prompt("t", "A (FOR)", "B")
    );
    assert_eq!(
        system_prompt_for(&format, "t", &three, 1),
        format.system_prompt("t", "B (AGAINST)", "A")
    );
    assert_eq!(system_prompt_for(&format, "t", &three, 2), "mine");

    let alone = vec![AIParticipant::new("Solo", "m", ParticipantRole::Neutral)];
    assert_eq!(
        system_prompt_for(&format, "t", &alone, 0),
        format.system_prompt("t", "Solo (NEUTRAL)", "Opponent")
    );
    let boxed = presidential(4);
    assert_eq!(
        system_prompt_for(&*boxed, "t", &alone, 0),
        format.system_prompt("t", "Solo (NEUTRAL)", "Opponent")
    );
}

#[test]
fn chat_message_constructors() {
    let m = ChatMessage::system("s");
    assert_eq!((m.role, m.content.as_str()), (ChatRole::System, "s"));
    let m = ChatMessage::user("u");
    assert_eq!((m.role, m.content.as_str()), (ChatRole::User, "u"));
    let m = ChatMessage::assistant("a");
    assert_eq!((m.role, m.content.as_str()), (ChatRole::Assistant, "a"));
}

#[test]
fn error_messages() {
    assert_eq!(
        DebateError::InvalidParticipantCount { min: 2, max: 10, actual: 123 }.message(),
        "Invalid participant count: expected 2-10, got 123"
    );
    assert_eq!(
        DebateError::OpenAIError(OpenAIError::InvalidArgument("bad".to_string())).message(),
        "OpenAI API error: invalid args: bad"
    );
    assert_eq!(DebateError::ConfigError("x".to_string()).message(), "Configuration error: x");
    assert_eq!(
        DebateError::UnknownFormat("oxford".to_string()).message(),
        "Unknown debate format: oxford"
    );
    assert_eq!(DebateError::TtsError("no voice".to_string()).message(), "TTS error: no voice");
    let wrapped: DebateError = OpenAIError::InvalidArgument("y".to_string()).into();
    assert!(matches!(wrapped, DebateError::OpenAIError(_)));
}
