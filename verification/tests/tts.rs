use debateai_core::audio::{append_samples, append_silence, assemble_speech, combine_audio_segments};
use debateai_core::chunks::split_into_chunks;
use debateai_core::tts::generate_output_filename;

#[test]
fn test_generate_output_filename() {
    assert_eq!(
        generate_output_filename("Should AI be open source?"),
        "DebateAI - Should AI be open source_.wav"
    );
}

#[test]
fn test_generate_output_filename_long() {
    let long_topic = "A".repeat(100);
    let filename = generate_output_filename(&long_topic);
    assert!(filename.len() < 70);
}

#[test]
fn test_combine_audio_segments() {
    let seg1 = vec![1.0, 1.0];
    let seg2 = vec![2.0, 2.0];
    let combined = combine_audio_segments(vec![seg1, seg2], 1, 0.0); // 1 sample gap at 10Hz

    assert_eq!(combined.len(), 5); // 2 + 1 gap + 2
    assert_eq!(combined[2], 0.0); // gap sample
}

#[test]
fn test_split_into_chunks() {
    let text = "Hello world. This is a test. Another sentence here.";
    let chunks = split_into_chunks(text, 30);
    assert!(chunks.len() >= 1);
    for chunk in &chunks {
        assert!(chunk.len() <= 35); // Allow some flexibility
    }
}

#[test]
fn filename_keeps_letters_digits_spaces_hyphens_underscores() {
    assert_eq!(generate_output_filename("a-b_c 1"), "DebateAI - a-b_c 1.wav");
    assert_eq!(generate_output_filename("Tabs/Spaces: 2x?"), "DebateAI - Tabs_Spaces_ 2x_.wav");
    assert_eq!(generate_output_filename("Über Größe"), "DebateAI - Über Größe.wav");
    assert_eq!(generate_output_filename(""), "DebateAI - .wav");
    assert_eq!(generate_output_filename("   padded   "), "DebateAI - padded.wav");
    assert_eq!(generate_output_filename("\ttab\n"), "DebateAI - _tab_.wav");
}

#[test]
fn filename_is_cut_at_fifty_bytes_and_then_trimmed() {
    let topic = "A".repeat(100);
    assert_eq!(generate_output_filename(&topic), format!("DebateAI - {}.wav", "A".repeat(50)));
    let topic = format!("{} {}", "B".repeat(49), "C".repeat(20));
    assert_eq!(generate_output_filename(&topic), format!("DebateAI - {}.wav", "B".repeat(49)));
    let topic = "D".repeat(50);
    assert_eq!(generate_output_filename(&topic), format!("DebateAI - {}.wav", "D".repeat(50)));
    // Two bytes each: twenty-five of them make fifty bytes.
    let topic = "é".repeat(40);
    assert_eq!(generate_output_filename(&topic), format!("DebateAI - {}.wav", "é".repeat(25)));
    // A character that would straddle the limit is left out whole.
    let topic = format!("x{}", "é".repeat(40));
    assert_eq!(generate_output_filename(&topic), format!("DebateAI - x{}.wav", "é".repeat(24)));
}

#[test]
fn combined_length_and_silence_at_each_junction() {
    let segments: Vec<Vec<i32>> = vec![vec![1, 2, 3], vec![], vec![4], vec![5, 6]];
    for gap in [0usize, 1, 4] {
        let combined = combine_audio_segments(segments.clone(), gap, 0);
        let total: usize = segments.iter().map(|s| s.len()).sum();
        assert_eq!(combined.len(), total + gap * (segments.len() - 1));
        let mut start = 0;
        for (index, segment) in segments.iter().enumerate() {
            if index > 0 {
                assert!(combined[start..start + gap].iter().all(|s| *s == 0));
                start += gap;
            }
            assert_eq!(&combined[start..start + segment.len()], segment.as_slice());
            start += segment.len();
        }
        assert_eq!(start, combined.len());
    }
}

#[test]
fn combined_samples_exact() {
    assert_eq!(
        combine_audio_segments(vec![vec![1.5f32, 2.5], vec![3.5], vec![4.5, 5.5]], 2, 0.0),
        vec![1.5, 2.5, 0.0, 0.0, 3.5, 0.0, 0.0, 4.5, 5.5]
    );
    assert_eq!(combine_audio_segments(vec![vec![7u8, 8]], 3, 0), vec![7, 8]);
    assert_eq!(combine_audio_segments(Vec::<Vec<u8>>::new(), 3, 0), Vec::<u8>::new());
    assert_eq!(combine_audio_segments(vec![vec![], vec![]], 2, 9u8), vec![9, 9]);
}

#[test]
fn speech_has_a_pause_after_each_chunk_and_a_pad_at_the_end() {
    let out = assemble_speech(vec![vec![1i16, 2], vec![3]], 0);
    assert_eq!(out.len(), 2 + 7200 + 1 + 7200 + 12000);
    assert_eq!(&out[0..2], &[1, 2]);
    assert!(out[2..7202].iter().all(|s| *s == 0));
    assert_eq!(out[7202], 3);
    assert!(out[7203..].iter().all(|s| *s == 0));

    let silent = assemble_speech(Vec::<Vec<f32>>::new(), 0.0);
    assert_eq!(silent.len(), 12000);
    assert!(silent.iter().all(|s| *s == 0.0));
}

#[test]
fn appending_samples_and_silence() {
    let mut out = vec![1, 2];
    append_samples(&mut out, &vec![3, 4]);
    assert_eq!(out, vec![1, 2, 3, 4]);
    append_silence(&mut out, 3, 0);
    assert_eq!(out, vec![1, 2, 3, 4, 0, 0, 0]);
    append_silence(&mut out, 0, 0);
    append_samples(&mut out, &Vec::new());
    assert_eq!(out.len(), 7);
}

#[test]
fn chunks_pack_sentences_up_to_the_limit() {
    let text = "Hello world. This is a test. Another sentence here.";
    assert_eq!(
        split_into_chunks(text, 30),
        vec!["Hello world. This is a test.", "Another sentence here."]
    );
    assert_eq!(
        split_into_chunks(text, 200),
        vec!["Hello world. This is a test. Another sentence here."]
    );
    assert_eq!(
        split_into_chunks(text, 12),
        vec!["Hello world.", "This is a test.", "Another sentence here."]
    );
}

#[test]
fn chunks_of_blank_text() {
    assert!(split_into_chunks("", 10).is_empty());
    assert!(split_into_chunks("   \n\t ", 10).is_empty());
    assert_eq!(split_into_chunks(" . ", 10), vec!["."]);
    assert_eq!(split_into_chunks("a", 0), vec!["a"]);
}

#[test]
fn chunks_cut_at_every_sentence_end() {
    assert_eq!(split_into_chunks("One! Two? Three; Four.", 4), vec!["One!", "Two?", "Three;", "Four."]);
    assert_eq!(split_into_chunks("One! Two? Three; Four.", 10), vec!["One! Two?", "Three;", "Four."]);
    assert_eq!(split_into_chunks("no end", 100), vec!["no end"]);
    assert_eq!(split_into_chunks("a..b", 100), vec!["a. . b"]);
}

#[test]
fn long_sentences_are_packed_by_their_commas() {
    let text = "alpha beta, gamma delta, epsilon zeta, eta theta.";
    // The parts keep the space that follows their comma in the sentence.
    assert_eq!(
        split_into_chunks(text, 25),
        vec!["alpha beta,  gamma delta,", "epsilon zeta,", "eta theta."]
    );
    assert_eq!(
        split_into_chunks(text, 26),
        vec!["alpha beta,  gamma delta,", "epsilon zeta,  eta theta."]
    );
    assert_eq!(
        split_into_chunks(text, 12),
        vec!["alpha beta,", "gamma delta,", "epsilon zeta,", "eta theta."]
    );
    // A part without a comma that is too long makes a chunk of its own.
    assert_eq!(
        split_into_chunks("short. this part has no comma at all and is long. end.", 10),
        vec!["short.", "this part has no comma at all and is long.", "end."]
    );
}

#[test]
fn chunk_lengths_are_counted_in_bytes() {
    // Each sentence takes ten bytes; with the space after the first, two of
    // them need twenty-one.
    let text = "äää ä. ööö ö.";
    assert_eq!(split_into_chunks(text, 20), vec!["äää ä.", "ööö ö."]);
    assert_eq!(split_into_chunks(text, 21), vec!["äää ä. ööö ö."]);
}
