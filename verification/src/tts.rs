//! What speech synthesis needs from the debate: the voice of each role, the
//! chunks a text is read in, and the name of the output file.

pub use crate::audio::combine_audio_segments;
pub use crate::chunks::split_into_chunks;
use crate::chunks::{chunks_of, SPEECH_CHUNK_BYTES};
use crate::config::{VoicesConfig, VoicesConfigView};
use crate::error::DebateError;
use crate::model::text_views;
use crate::order::{sort_texts, sorted_texts, texts};
use crate::participant::ParticipantRole;
use crate::text::{
    count_within, from_chars, is_alphanumeric, matches_at, occurs_at, prefix_within, push_char,
    same_text, to_chars, trim_range, trimmed, unicode_alphanumeric,
};
use vstd::prelude::*;
use vstd::string::StringExecFns;

verus! {

/// Longest topic, in bytes, that goes into a file name.
pub const FILENAME_TOPIC_BYTES: usize = 50;

pub const FILENAME_PREFIX: &'static str = "DebateAI - ";

pub const FILENAME_SUFFIX: &'static str = ".wav";

/// The character that stands for `c` in a file name: letters, digits,
/// spaces, hyphens and underscores stand for themselves, an underscore for
/// everything else.
pub open spec fn filename_char(c: char) -> char {
    if unicode_alphanumeric(c) || c == ' ' || c == '-' || c == '_' {
        c
    } else {
        '_'
    }
}

/// The topic as it goes into a file name, character by character.
pub open spec fn filename_topic(topic: Seq<char>) -> Seq<char> {
    Seq::new(topic.len(), |i: int| filename_char(topic[i]))
}

/// The name of the audio file for a debate on `topic`: the topic with its
/// unsafe characters replaced, cut to the longest prefix of at most
/// [`FILENAME_TOPIC_BYTES`] bytes and trimmed, between a fixed prefix and the
/// extension.
pub open spec fn output_filename(topic: Seq<char>) -> Seq<char> {
    FILENAME_PREFIX@ + trimmed(
        prefix_within(filename_topic(topic), FILENAME_TOPIC_BYTES as nat),
    ) + FILENAME_SUFFIX@
}

/// Generates the file name for the audio of a debate.
pub fn generate_output_filename(topic: &str) -> (name: String)
    ensures
        name@ == output_filename(topic@),
{
    let chars = to_chars(topic);
    let mut safe: Vec<char> = Vec::new();
    let mut i: usize = 0;
    while i < chars.len()
        invariant
            i <= chars@.len(),
            chars@ == topic@,
            safe@ =~= filename_topic(topic@).take(i as int),
        decreases chars@.len() - i,
    {
        let c = chars[i];
        if is_alphanumeric(c) || c == ' ' || c == '-' || c == '_' {
            safe.push(c);
        } else {
            safe.push('_');
        }
        i = i + 1;
    }
    assert(safe@ =~= filename_topic(topic@));
    let kept = count_within(&safe, FILENAME_TOPIC_BYTES);
    assert(safe@.subrange(0, kept as int) =~= prefix_within(
        filename_topic(topic@),
        FILENAME_TOPIC_BYTES as nat,
    ));
    let (from, to) = trim_range(&safe, 0, kept);
    let middle = from_chars(&safe, from, to);
    let mut name = String::from_str(FILENAME_PREFIX);
    name.append(middle.as_str());
    name.append(FILENAME_SUFFIX);
    name
}

pub const EMPTY_VOICE_DETAIL: &'static str = "Voice ID cannot be empty. Available voices:\n";

pub const UNKNOWN_VOICE_OPEN: &'static str = "Unknown voice '";

pub const UNKNOWN_VOICE_CLOSE: &'static str = "'. Available voices:\n";

pub const VOICE_LINE_OPEN: &'static str = "  - ";

pub const AMERICAN_FEMALE: &'static str = "af_";

pub const AMERICAN_MALE: &'static str = "am_";

pub const BRITISH_FEMALE: &'static str = "bf_";

pub const BRITISH_MALE: &'static str = "bm_";

/// Whether `voice` is an English voice: its name starts with one of the
/// four prefixes for American and British voices.
pub open spec fn is_english_voice(voice: Seq<char>) -> bool {
    ||| occurs_at(voice, AMERICAN_FEMALE@, 0)
    ||| occurs_at(voice, AMERICAN_MALE@, 0)
    ||| occurs_at(voice, BRITISH_FEMALE@, 0)
    ||| occurs_at(voice, BRITISH_MALE@, 0)
}

/// The test for English voices, as a value.
pub open spec fn english_voices() -> spec_fn(Seq<char>) -> bool {
    |voice: Seq<char>| is_english_voice(voice)
}

/// One line for each voice, `"  - "` in front of its name; the lines are
/// divided by line breaks.
pub open spec fn voice_lines(voices: Seq<Seq<char>>) -> Seq<char>
    decreases voices.len(),
{
    if voices.len() == 0 {
        Seq::empty()
    } else if voices.len() == 1 {
        VOICE_LINE_OPEN@ + voices[0]
    } else {
        voice_lines(voices.drop_last()) + seq!['\n'] + VOICE_LINE_OPEN@ + voices.last()
    }
}

/// The listing of the voices a person may choose from: the English ones
/// among `available`, in ascending order.
pub open spec fn voice_listing(available: Seq<Seq<char>>) -> Seq<char> {
    voice_lines(sorted_texts(available.filter(english_voices())))
}

/// Mathematical content of a [`DebateTts`].
pub struct TtsView {
    pub voices: VoicesConfigView,
    pub available: Seq<Seq<char>>,
}

impl TtsView {
    /// Whether `voice` can be used: it is not empty and the engine has it.
    pub open spec fn knows(self, voice: Seq<char>) -> bool {
        voice.len() > 0 && self.available.contains(voice)
    }

    /// Why `voice` is refused.
    pub open spec fn refusal(self, voice: Seq<char>) -> Seq<char> {
        if voice.len() == 0 {
            EMPTY_VOICE_DETAIL@ + voice_listing(self.available)
        } else {
            UNKNOWN_VOICE_OPEN@ + voice + UNKNOWN_VOICE_CLOSE@ + voice_listing(self.available)
        }
    }

    /// The voice that speaks for `role`: the announcer's for a neutral
    /// participant.
    pub open spec fn voice_for(self, role: ParticipantRole) -> Seq<char> {
        match role {
            ParticipantRole::For => self.voices.for_voice,
            ParticipantRole::Against => self.voices.against_voice,
            ParticipantRole::Neutral => self.voices.announcer_voice,
        }
    }

    /// The first of the three configured voices that cannot be used, if
    /// there is one.
    pub open spec fn first_unknown(self) -> Option<Seq<char>> {
        if !self.knows(self.voices.for_voice) {
            Some(self.voices.for_voice)
        } else if !self.knows(self.voices.against_voice) {
            Some(self.voices.against_voice)
        } else if !self.knows(self.voices.announcer_voice) {
            Some(self.voices.announcer_voice)
        } else {
            None
        }
    }
}

/// Whether a chunk holds more than whitespace.
pub open spec fn speakable() -> spec_fn(Seq<char>) -> bool {
    |chunk: Seq<char>| trimmed(chunk).len() > 0
}

/// The chunks in which `text` is handed to the speech engine.
pub open spec fn speech_chunks(text: Seq<char>) -> Seq<Seq<char>> {
    chunks_of(text, SPEECH_CHUNK_BYTES as nat).filter(speakable())
}

/// The voices of a debate and the voices that the speech engine offers.
#[derive(Debug)]
pub struct DebateTts {
    voices: VoicesConfig,
    available_voices: Vec<String>,
}

impl View for DebateTts {
    type V = TtsView;

    closed spec fn view(&self) -> TtsView {
        TtsView { voices: self.voices@, available: text_views(self.available_voices@) }
    }
}

/// Whether the name of an English voice starts `voice`.
fn english(voice: &Vec<char>) -> (found: bool)
    ensures
        found == is_english_voice(voice@),
{
    if voice.len() < 3 {
        proof {
            reveal_strlit("af_");
            reveal_strlit("am_");
            reveal_strlit("bf_");
            reveal_strlit("bm_");
        }
        return false;
    }
    let american_female = to_chars(AMERICAN_FEMALE);
    let american_male = to_chars(AMERICAN_MALE);
    let british_female = to_chars(BRITISH_FEMALE);
    let british_male = to_chars(BRITISH_MALE);
    proof {
        reveal_strlit("af_");
        reveal_strlit("am_");
        reveal_strlit("bf_");
        reveal_strlit("bm_");
    }
    matches_at(voice, &american_female, 0) || matches_at(voice, &american_male, 0) || matches_at(
        voice,
        &british_female,
        0,
    ) || matches_at(voice, &british_male, 0)
}

impl DebateTts {
    /// The voices `voices` for an engine that offers `available_voices`.
    pub fn new(voices: VoicesConfig, available_voices: Vec<String>) -> (tts: Self)
        ensures
            tts@ == (TtsView { voices: voices@, available: text_views(available_voices@) }),
    {
        DebateTts { voices, available_voices }
    }

    /// The voices that the engine offers.
    pub fn available_voices(&self) -> (voices: &[String])
        ensures
            text_views(voices@) == self@.available,
    {
        self.available_voices.as_slice()
    }

    /// The configured voices.
    pub fn voices(&self) -> (voices: &VoicesConfig)
        ensures
            voices@ == self@.voices,
    {
        &self.voices
    }

    /// The listing of the English voices, sorted, one to a line.
    pub fn format_available_voices(&self) -> (listing: String)
        ensures
            listing@ == voice_listing(self@.available),
    {
        let ghost available = self@.available;
        let mut english_only: Vec<Vec<char>> = Vec::new();
        let mut i: usize = 0;
        proof {
            assert(available.take(0) =~= Seq::<Seq<char>>::empty());
            assert(Seq::<Seq<char>>::empty().filter(english_voices()) =~= Seq::<
                Seq<char>,
            >::empty()) by {
                reveal(Seq::filter);
            }
            assert(texts(english_only@) =~= Seq::<Seq<char>>::empty());
        }
        while i < self.available_voices.len()
            invariant
                i <= self.available_voices@.len(),
                available == self@.available,
                texts(english_only@) == available.take(i as int).filter(english_voices()),
            decreases self.available_voices@.len() - i,
        {
            let voice = to_chars(self.available_voices[i].as_str());
            proof {
                assert(available.take(i + 1) =~= available.take(i as int).push(voice@));
                available.take(i as int).lemma_filter_push(voice@, english_voices());
            }
            if english(&voice) {
                assert(texts(english_only@.push(voice)) =~= texts(english_only@).push(voice@));
                english_only.push(voice);
            }
            i = i + 1;
        }
        assert(available.take(self.available_voices@.len() as int) =~= available);
        let sorted = sort_texts(english_only);
        let ghost lines = texts(sorted@);
        let mut listing = String::new();
        let mut k: usize = 0;
        assert(lines.take(0) =~= Seq::<Seq<char>>::empty());
        while k < sorted.len()
            invariant
                k <= sorted@.len(),
                lines == texts(sorted@),
                listing@ == voice_lines(lines.take(k as int)),
            decreases sorted@.len() - k,
        {
            proof {
                assert(lines.take(k + 1).drop_last() =~= lines.take(k as int));
                assert(lines.take(k + 1).last() == sorted@[k as int]@);
                if k == 0 {
                    assert(lines.take(1)[0] == sorted@[0]@);
                }
            }
            if k > 0 {
                push_char(&mut listing, '\n');
            }
            listing.append(VOICE_LINE_OPEN);
            let name = from_chars(&sorted[k], 0, sorted[k].len());
            assert(sorted@[k as int]@.subrange(0, sorted@[k as int]@.len() as int)
                =~= sorted@[k as int]@);
            listing.append(name.as_str());
            proof {
                if k == 0 {
                    assert(listing@ =~= VOICE_LINE_OPEN@ + lines.take(1)[0]);
                } else {
                    assert(listing@ =~= voice_lines(lines.take(k as int)) + seq!['\n']
                        + VOICE_LINE_OPEN@ + lines.take(k + 1).last());
                }
            }
            k = k + 1;
        }
        assert(lines.take(sorted@.len() as int) =~= lines);
        listing
    }

    /// Whether the engine offers the voice `voice_id`.
    fn offers(&self, voice_id: &str) -> (found: bool)
        ensures
            found == self@.available.contains(voice_id@),
    {
        let mut i: usize = 0;
        while i < self.available_voices.len()
            invariant
                i <= self.available_voices@.len(),
                forall|k: int| 0 <= k < i ==> self@.available[k] != voice_id@,
            decreases self.available_voices@.len() - i,
        {
            if same_text(self.available_voices[i].as_str(), voice_id) {
                assert(self@.available[i as int] == voice_id@);
                return true;
            }
            i = i + 1;
        }
        false
    }

    /// Checks that `voice_id` names a voice of the engine. The error lists
    /// the voices to choose from.
    pub fn validate_voice(&self, voice_id: &str) -> (result: Result<(), DebateError>)
        ensures
            result is Ok <==> self@.knows(voice_id@),
            result matches Err(error) ==> error matches DebateError::TtsError(detail) && detail@
                == self@.refusal(voice_id@),
    {
        if voice_id.unicode_len() == 0 {
            let mut detail = String::from_str(EMPTY_VOICE_DETAIL);
            detail.append(self.format_available_voices().as_str());
            return Err(DebateError::TtsError(detail));
        }
        if !self.offers(voice_id) {
            let mut detail = String::from_str(UNKNOWN_VOICE_OPEN);
            detail.append(voice_id);
            detail.append(UNKNOWN_VOICE_CLOSE);
            detail.append(self.format_available_voices().as_str());
            return Err(DebateError::TtsError(detail));
        }
        Ok(())
    }

    /// Checks the three configured voices, in the order for, against,
    /// announcer, and reports the first that cannot be used.
    pub fn validate_all_voices(&self) -> (result: Result<(), DebateError>)
        ensures
            result is Ok <==> self@.first_unknown() is None,
            result matches Err(error) ==> error matches DebateError::TtsError(detail)
                && self@.first_unknown() matches Some(voice) && detail@ == self@.refusal(voice),
    {
        match self.validate_voice(self.voices.for_voice.as_str()) {
            Err(error) => {
                return Err(error);
            },
            Ok(_) => {},
        }
        match self.validate_voice(self.voices.against_voice.as_str()) {
            Err(error) => {
                return Err(error);
            },
            Ok(_) => {},
        }
        self.validate_voice(self.voices.announcer_voice.as_str())
    }

    /// The voice that speaks for `role`.
    pub fn voice_for_role(&self, role: &ParticipantRole) -> (voice: &str)
        ensures
            voice@ == self@.voice_for(*role),
    {
        match role {
            ParticipantRole::For => self.voices.for_voice.as_str(),
            ParticipantRole::Against => self.voices.against_voice.as_str(),
            ParticipantRole::Neutral => self.voices.announcer_voice.as_str(),
        }
    }

    /// The chunks in which `text` is to be synthesized with the voice
    /// `voice_id`, or the reason why the voice cannot be used.
    pub fn synthesis_chunks(&self, text: &str, voice_id: &str) -> (result: Result<
        Vec<String>,
        DebateError,
    >)
        ensures
            result is Ok <==> self@.knows(voice_id@),
            result matches Ok(chunks) ==> text_views(chunks@) == speech_chunks(text@),
            result matches Err(error) ==> error matches DebateError::TtsError(detail) && detail@
                == self@.refusal(voice_id@),
    {
        match self.validate_voice(voice_id) {
            Err(error) => {
                return Err(error);
            },
            Ok(_) => {},
        }
        let all = split_into_chunks(text, SPEECH_CHUNK_BYTES);
        let ghost source = text_views(all@);
        let mut chunks: Vec<String> = Vec::new();
        let mut i: usize = 0;
        proof {
            assert(source.take(0) =~= Seq::<Seq<char>>::empty());
            assert(Seq::<Seq<char>>::empty().filter(speakable()) =~= Seq::<Seq<char>>::empty())
                by {
                reveal(Seq::filter);
            }
            assert(text_views(chunks@) =~= Seq::<Seq<char>>::empty());
        }
        while i < all.len()
            invariant
                i <= all@.len(),
                source == text_views(all@),
                text_views(chunks@) == source.take(i as int).filter(speakable()),
            decreases all@.len() - i,
        {
            let chunk = all[i].clone();
            let chars = to_chars(chunk.as_str());
            let (from, to) = trim_range(&chars, 0, chars.len());
            proof {
                assert(chars@.subrange(0, chars@.len() as int) =~= chars@);
                assert(source.take(i + 1) =~= source.take(i as int).push(chunk@));
                source.take(i as int).lemma_filter_push(chunk@, speakable());
            }
            if from < to {
                assert(text_views(chunks@.push(chunk)) =~= text_views(chunks@).push(chunk@));
                chunks.push(chunk);
            }
            i = i + 1;
        }
        assert(source.take(all@.len() as int) =~= source);
        Ok(chunks)
    }
}

} // verus!
