use debateai_core::debate_format::{
    available_formats, format_for_key, get_format, DebateFormat, PresidentialDebateFormat,
};

#[test]
fn test_presidential_format_minimum_rounds() {
    let format = PresidentialDebateFormat::new(4);
    let sections = format.sections();

    // Minimum 4 rounds: opening, 1 main, rebuttal, closing
    assert_eq!(sections.len(), 4);
    assert_eq!(sections[0].name, "Opening Statements");
    assert_eq!(sections[1].name, "Main Arguments - Round 1");
    assert_eq!(sections[2].name, "Rebuttals");
    assert_eq!(sections[3].name, "Closing Statements");
}

#[test]
fn test_presidential_format_six_rounds() {
    let format = PresidentialDebateFormat::new(6);
    let sections = format.sections();

    // 6 rounds: opening, 3 main, rebuttal, closing
    assert_eq!(sections.len(), 6);
    assert_eq!(sections[0].name, "Opening Statements");
    assert_eq!(sections[1].name, "Main Arguments - Round 1");
    assert_eq!(sections[2].name, "Main Arguments - Round 2");
    assert_eq!(sections[3].name, "Main Arguments - Round 3");
    assert_eq!(sections[4].name, "Rebuttals");
    assert_eq!(sections[5].name, "Closing Statements");
}

#[test]
fn test_presidential_format_alternating_speakers() {
    let format = PresidentialDebateFormat::new(6);
    let sections = format.sections();

    // Main rounds should alternate speaker order
    assert_eq!(sections[1].speaker_order, vec![0, 1]); // Round 1: A then B
    assert_eq!(sections[2].speaker_order, vec![1, 0]); // Round 2: B then A
    assert_eq!(sections[3].speaker_order, vec![0, 1]); // Round 3: A then B
}

#[test]
fn test_get_format_presidential() {
    let format = get_format("presidential", 6);
    assert!(format.is_some());
    assert_eq!(format.unwrap().name(), "presidential");
}

#[test]
fn test_get_format_unknown() {
    let format = get_format("unknown_format", 6);
    assert!(format.is_none());
}

#[test]
fn test_participant_limits() {
    let format = PresidentialDebateFormat::new(6);
    assert_eq!(format.min_participants(), 2);
    assert_eq!(format.max_participants(), 2);
}

#[test]
fn section_count_equals_round_count_from_four_on() {
    for rounds in [4u32, 5, 6, 7, 12, 40] {
        let sections = PresidentialDebateFormat::new(rounds).sections();
        let main = std::cmp::max(rounds as i64 - 3, 1) as usize;
        assert_eq!(sections.len(), 1 + main + 2);
        assert_eq!(sections.len(), rounds as usize);
        assert_eq!(sections.first().unwrap().name, "Opening Statements");
        assert_eq!(sections.last().unwrap().name, "Closing Statements");
        assert_eq!(sections[sections.len() - 2].name, "Rebuttals");
    }
}

#[test]
fn main_rounds_alternate_from_the_first_participant() {
    let sections = PresidentialDebateFormat::new(12).sections();
    for index in 0..9 {
        let section = &sections[1 + index];
        assert_eq!(section.name, format!("Main Arguments - Round {}", index + 1));
        let expected = if index % 2 == 0 { vec![0, 1] } else { vec![1, 0] };
        assert_eq!(section.speaker_order, expected);
        assert_eq!(section.max_tokens, 400);
        assert_eq!(
            section.description,
            "Candidates elaborate on their positions with supporting arguments."
        );
    }
}

#[test]
fn fixed_sections_have_their_orders_and_budgets() {
    let sections = PresidentialDebateFormat::new(4).sections();
    assert_eq!(sections[0].speaker_order, vec![0, 1]);
    assert_eq!(sections[0].max_tokens, 300);
    assert_eq!(
        sections[0].description,
        "Each candidate presents their initial position on the topic."
    );
    assert_eq!(sections[2].speaker_order, vec![1, 0]);
    assert_eq!(sections[2].max_tokens, 400);
    assert_eq!(sections[2].description, "Candidates respond to their opponent's arguments.");
    assert_eq!(sections[3].speaker_order, vec![0, 1]);
    assert_eq!(sections[3].max_tokens, 250);
    assert_eq!(sections[3].description, "Final remarks and summation of positions.");
}

fn summary(format: &PresidentialDebateFormat) -> Vec<(String, String, Vec<usize>, u32)> {
    format
        .sections()
        .into_iter()
        .map(|s| (s.name, s.description, s.speaker_order, s.max_tokens))
        .collect()
}

#[test]
fn rounds_under_four_are_clamped_to_four() {
    let four = summary(&PresidentialDebateFormat::new(4));
    for rounds in [0u32, 1, 2, 3] {
        assert_eq!(summary(&PresidentialDebateFormat::new(rounds)), four);
    }
    assert_eq!(four.len(), 4);
}

#[test]
fn default_format_has_six_rounds() {
    let sections = PresidentialDebateFormat::default().sections();
    assert_eq!(sections.len(), 6);
    assert_eq!(summary(&PresidentialDebateFormat::default()), summary(&PresidentialDebateFormat::new(6)));
}

#[test]
fn round_numbers_with_several_digits() {
    let sections = PresidentialDebateFormat::new(130).sections();
    assert_eq!(sections[10].name, "Main Arguments - Round 10");
    assert_eq!(sections[100].name, "Main Arguments - Round 100");
    assert_eq!(sections[127].name, "Main Arguments - Round 127");
}

#[test]
fn names_of_the_format() {
    let format = PresidentialDebateFormat::new(6);
    assert_eq!(format.name(), "presidential");
    assert_eq!(format.display_name(), "Presidential Debate (Michael Douglass Format)");
}

#[test]
fn system_prompt_for_both_sides() {
    let format = PresidentialDebateFormat::new(6);
    let prompt = format.system_prompt("Tabs or spaces", "Alice (FOR)", "Bob");
    let expected = "You are Alice (FOR) participating in a formal presidential-style debate.\n\nTOPIC: Tabs or spaces\n\nYour role is to argue IN FAVOR OF the topic. Your opponent is Bob.\n\nGuidelines:\n- Be persuasive, articulate, and professional\n- Use evidence and logical reasoning\n- Address your opponent's points when appropriate\n- Maintain a respectful but firm debating stance\n- Keep responses focused and within the time constraints\n- Do not break character or acknowledge being an AI\n\nSpeak directly as if you are at a podium addressing an audience.";
    assert_eq!(prompt, expected);

    let prompt = format.system_prompt("Tabs or spaces", "Bob (AGAINST)", "Alice");
    assert!(prompt.starts_with("You are Bob (AGAINST) participating"));
    assert!(prompt.contains("Your role is to argue AGAINST the topic. Your opponent is Alice."));

    // The stance is read off the role-qualified name.
    let prompt = format.system_prompt("t", "Professor (AGAINST)", "x");
    assert!(prompt.contains("argue IN FAVOR OF the topic"));
    let prompt = format.system_prompt("t", "for (NEUTRAL)", "x");
    assert!(prompt.contains("argue AGAINST the topic"));
}

#[test]
fn get_format_ignores_case() {
    assert!(get_format("Presidential", 6).is_some());
    assert!(get_format("PRESIDENTIAL", 6).is_some());
    assert!(get_format("presidential ", 6).is_none());
    assert!(get_format("", 6).is_none());
    let format = get_format("PresiDential", 2).unwrap();
    assert_eq!(format.sections().len(), 4);
    assert_eq!(format.min_participants(), 2);
    assert_eq!(format.max_participants(), 2);
}

#[test]
fn format_for_key_takes_the_exact_key_only() {
    assert!(format_for_key("presidential", 6).is_some());
    assert!(format_for_key("Presidential", 6).is_none());
    assert!(format_for_key("parliamentary", 6).is_none());
    assert_eq!(format_for_key("presidential", 9).unwrap().sections().len(), 9);
}

#[test]
fn available_formats_lists_presidential() {
    assert_eq!(available_formats(), vec!["presidential"]);
    for name in available_formats() {
        assert!(get_format(name, 6).is_some());
    }
}
