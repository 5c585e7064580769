use talenode::assist::{AssistState, AsyncResult, WritingRequest, WritingTask};
use talenode::model::{Character, DialogueGraph, Node, NodeType};
use talenode::settings::VoiceInfo;

fn state_with(nodes: Vec<Node>) -> AssistState {
    let mut g = DialogueGraph::new();
    for n in nodes {
        g.add_node(n);
    }
    AssistState::new(g)
}

fn status(s: &AssistState) -> (String, bool) {
    let m = s.status.as_ref().expect("a status message");
    (m.text.clone(), m.is_error)
}

#[test]
fn translation_batch_is_stored_and_undoable() {
    let mut s = state_with(Vec::new());
    s.translation_in_progress = true;
    s.apply_result(AsyncResult::TranslationDone {
        locale: "fr".to_string(),
        translations: vec![
            ("dlg_abc".to_string(), "Bonjour".to_string()),
            ("dlg_def".to_string(), "Au revoir".to_string()),
            ("dlg_abc".to_string(), "Salut".to_string()),
        ],
    });
    assert_eq!(s.graph.locale.get_translation("dlg_abc", "fr"), Some("Salut"));
    assert_eq!(s.graph.locale.get_translation("dlg_def", "fr"), Some("Au revoir"));
    assert_eq!(s.graph.locale.get_translation("dlg_def", "de"), None);
    assert!(!s.translation_in_progress);
    assert_eq!(status(&s), ("Translation to 'fr' complete".to_string(), false));
    assert!(s.history.can_undo());
}

#[test]
fn generated_voice_sets_audio_clip() {
    let d = Node::new_dialogue([0, 0]);
    let id = d.id;
    let mut s = state_with(vec![d, Node::new_end([100, 0])]);
    s.voice_generation_in_progress = true;
    s.apply_result(AsyncResult::VoiceGenerated { node_id: id, audio_path: "voices/dlg_abc.mp3".to_string() });
    match &s.graph.nodes[0].node_type {
        NodeType::Dialogue(d) => assert_eq!(d.audio_clip.as_deref(), Some("voices/dlg_abc.mp3")),
        _ => panic!("expected a dialogue node"),
    }
    assert!(!s.voice_generation_in_progress);
    assert_eq!(status(&s), ("Voice generated".to_string(), false));
    assert_eq!(s.history.undo_len(), 1);
}

#[test]
fn voice_for_a_non_dialogue_node_changes_nothing_in_the_graph() {
    let e = Node::new_end([0, 0]);
    let id = e.id;
    let mut s = state_with(vec![e]);
    s.apply_result(AsyncResult::VoiceGenerated { node_id: id, audio_path: "x.mp3".to_string() });
    assert!(matches!(s.graph.nodes[0].node_type, NodeType::End(_)));
}

#[test]
fn error_answers_clear_their_flag_and_report() {
    let mut s = state_with(Vec::new());
    s.translation_in_progress = true;
    s.voice_generation_in_progress = true;
    s.writing_in_progress = true;
    s.apply_result(AsyncResult::TranslationError("quota".to_string()));
    assert_eq!(status(&s), ("Translation error: quota".to_string(), true));
    assert!(!s.translation_in_progress && s.voice_generation_in_progress);
    s.apply_result(AsyncResult::VoiceError("timeout".to_string()));
    assert_eq!(status(&s), ("Voice error: timeout".to_string(), true));
    assert!(!s.voice_generation_in_progress && s.writing_in_progress);
    s.apply_result(AsyncResult::WritingError("bad key".to_string()));
    assert_eq!(status(&s), ("AI writing error: bad key".to_string(), true));
    assert!(!s.writing_in_progress);
    s.apply_result(AsyncResult::CollabError("refused".to_string()));
    assert_eq!(status(&s), ("Collab error: refused".to_string(), true));
    assert!(!s.history.can_undo());
}

#[test]
fn collab_message_changes_nothing() {
    let mut s = state_with(Vec::new());
    s.apply_result(AsyncResult::CollabMessage("{}".to_string()));
    assert!(s.status.is_none());
}

#[test]
fn voices_suggestions_and_tone_are_kept() {
    let mut s = state_with(Vec::new());
    s.apply_result(AsyncResult::VoiceListLoaded(vec![VoiceInfo {
        voice_id: "abc123".to_string(),
        name: "Rachel".to_string(),
        category: "premade".to_string(),
    }]));
    assert_eq!(s.available_voices.len(), 1);
    assert_eq!(s.available_voices[0].name, "Rachel");
    assert_eq!(status(&s), ("Voice list loaded".to_string(), false));
    s.writing_in_progress = true;
    s.apply_result(AsyncResult::WritingSuggestionsReady { node_id: 7, suggestions: vec!["Hi".to_string()] });
    assert_eq!(s.writing_suggestions, Some((7, vec!["Hi".to_string()])));
    assert!(!s.writing_in_progress);
    assert_eq!(status(&s), ("Suggestions ready".to_string(), false));
    s.apply_result(AsyncResult::ToneCheckReady { node_id: 7, report: "calm".to_string() });
    assert_eq!(s.writing_tone_report, Some((7, "calm".to_string())));
    assert_eq!(status(&s), ("Tone check complete".to_string(), false));
}

#[test]
fn more_generated_choices_than_options_add_options_and_ports() {
    let c = Node::new_choice([0, 0]);
    let id = c.id;
    let first_port = c.outputs[0].id;
    let mut s = state_with(vec![c]);
    s.apply_choices(id, &vec!["Buy".to_string(), "Sell".to_string(), "Leave".to_string()]);
    let n = &s.graph.nodes[0];
    match &n.node_type {
        NodeType::Choice(d) => {
            let texts: Vec<&str> = d.choices.iter().map(|o| o.text.as_str()).collect();
            assert_eq!(texts, vec!["Buy", "Sell", "Leave"]);
        }
        _ => panic!("expected a choice node"),
    }
    assert_eq!(n.outputs.len(), 3);
    assert_eq!(n.outputs[0].id, first_port);
    assert_eq!(n.outputs[0].label, "Buy");
    assert_eq!(n.outputs[2].label, "Leave");
    assert!(s.history.can_undo());
}

#[test]
fn fewer_generated_choices_keep_the_remaining_options() {
    let c = Node::new_choice([0, 0]);
    let id = c.id;
    let old_second = c.outputs[1].label.clone();
    let mut s = state_with(vec![c]);
    s.apply_choices(id, &vec!["Only".to_string()]);
    let n = &s.graph.nodes[0];
    match &n.node_type {
        NodeType::Choice(d) => {
            assert_eq!(d.choices.len(), 2);
            assert_eq!(d.choices[0].text, "Only");
        }
        _ => panic!("expected a choice node"),
    }
    assert_eq!(n.outputs.len(), 2);
    assert_eq!(n.outputs[0].label, "Only");
    assert_eq!(n.outputs[1].label, old_second);
}

#[test]
fn proposed_dialogue_text_replaces_the_line() {
    let d = Node::new_dialogue([0, 0]);
    let id = d.id;
    let mut s = state_with(vec![d]);
    s.apply_dialogue(id, "Welcome!".to_string());
    match &s.graph.nodes[0].node_type {
        NodeType::Dialogue(d) => assert_eq!(d.text, "Welcome!"),
        _ => panic!("expected a dialogue node"),
    }
    assert_eq!(s.history.undo_len(), 1);
}

fn key(k: &str) -> Option<String> {
    Some(k.to_string())
}

fn line(text: &str, speaker: Option<u128>) -> Node {
    let mut n = Node::new_dialogue([0, 0]);
    if let NodeType::Dialogue(ref mut d) = n.node_type {
        d.text = text.to_string();
        d.speaker_name = "Guard".to_string();
        d.emotion = "angry".to_string();
        d.speaker_id = speaker;
    }
    n
}

#[test]
fn writing_request_for_a_line_carries_speaker_emotion_text() {
    let n = line("Halt!", None);
    let id = n.id;
    let mut s = state_with(vec![n]);
    match s.start_writing(WritingTask::CheckTone, id, &key("k")) {
        Some(WritingRequest::Line { speaker, emotion, text }) => {
            assert_eq!((speaker.as_str(), emotion.as_str(), text.as_str()), ("Guard", "angry", "Halt!"));
        }
        _ => panic!("expected a line request"),
    }
    assert!(s.writing_in_progress);
    assert_eq!(status(&s), ("Checking tone...".to_string(), false));
}

#[test]
fn choice_request_joins_option_texts() {
    let mut c = Node::new_choice([0, 0]);
    if let NodeType::Choice(ref mut d) = c.node_type {
        d.prompt = "Will you help?".to_string();
        d.choices[0].text = "Accept".to_string();
        d.choices[1].text = "Decline".to_string();
    }
    let id = c.id;
    let mut s = state_with(vec![c]);
    match s.start_writing(WritingTask::GenerateChoices, id, &key("k")) {
        Some(WritingRequest::Choice { prompt, context }) => {
            assert_eq!(prompt, "Will you help?");
            assert_eq!(context, "Accept, Decline");
        }
        _ => panic!("expected a choice request"),
    }
    assert_eq!(status(&s), ("Generating choice options...".to_string(), false));
}

#[test]
fn writing_without_key_or_on_the_wrong_node_makes_no_request() {
    let n = line("Hi", None);
    let id = n.id;
    let mut s = state_with(vec![n]);
    assert!(s.start_writing(WritingTask::GenerateChoices, id, &key("k")).is_none());
    assert!(s.status.is_none());
    assert!(s.start_writing(WritingTask::SuggestDialogue, id, &Some(String::new())).is_none());
    assert_eq!(status(&s), ("AI API key not set \u{2014} open Settings".to_string(), true));
    assert!(!s.writing_in_progress);
    assert!(s.start_writing(WritingTask::SuggestDialogue, 12345, &None).is_none());
}

#[test]
fn translation_request_lists_missing_or_empty_translations() {
    let a = line("Hello", None);
    let b = line("Bye", None);
    let (ka, kb) = (
        format!("dlg_{}", &uuid_text(a.id)[..8]),
        format!("dlg_{}", &uuid_text(b.id)[..8]),
    );
    let mut s = state_with(vec![a, b]);
    s.graph.locale.set_translation(ka.clone(), "fr".to_string(), "Bonjour".to_string());
    s.graph.locale.set_translation(kb.clone(), "fr".to_string(), String::new());
    let pairs = s.start_translation(&"fr".to_string(), &key("k")).expect("a request");
    assert_eq!(pairs, vec![(kb, "Bye".to_string())]);
    assert!(s.translation_in_progress);
    assert_eq!(status(&s), ("Translating to 'fr'...".to_string(), false));
}

#[test]
fn translation_without_key_or_work_makes_no_request() {
    let mut s = state_with(Vec::new());
    assert!(s.start_translation(&"fr".to_string(), &None).is_none());
    assert_eq!(status(&s), ("DeepL API key not set \u{2014} open Settings".to_string(), true));
    assert!(s.start_translation(&"fr".to_string(), &key("k")).is_none());
    assert_eq!(status(&s), ("All strings already translated".to_string(), false));
    assert!(!s.translation_in_progress);
}

fn voiced_state(text: &str, voice: Option<&str>) -> (AssistState, u128) {
    let mut ch = Character::new("Guard");
    ch.voice_id = voice.map(|v| v.to_string());
    let n = line(text, Some(ch.id));
    let id = n.id;
    let mut s = state_with(vec![n]);
    s.graph.characters.push(ch);
    (s, id)
}

#[test]
fn voice_request_names_the_file_after_the_node() {
    let (mut s, id) = voiced_state("Halt!", Some("v42"));
    let r = s.start_voice(id, &key("k")).expect("a request");
    assert_eq!(r.voice_id, "v42");
    assert_eq!(r.text, "Halt!");
    assert_eq!(r.file_name, format!("dlg_{}.mp3", &uuid_text(id)[..8]));
    assert!(s.voice_generation_in_progress);
    assert_eq!(status(&s), ("Generating voice...".to_string(), false));
}

#[test]
fn voice_refusals_come_in_order() {
    let (mut s, id) = voiced_state("Halt!", None);
    assert!(s.start_voice(id, &None).is_none());
    assert_eq!(status(&s), ("No voice assigned to character".to_string(), true));
    let (mut s, id) = voiced_state(" \t\n", Some("v"));
    assert!(s.start_voice(id, &None).is_none());
    assert_eq!(status(&s), ("Dialogue text is empty".to_string(), true));
    let (mut s, id) = voiced_state("Halt!", Some("v"));
    assert!(s.start_voice(id, &None).is_none());
    assert_eq!(status(&s), ("ElevenLabs API key not set \u{2014} open Settings".to_string(), true));
    assert!(!s.voice_generation_in_progress);
}

#[test]
fn all_voices_picks_the_first_waiting_line() {
    let (mut s, id) = voiced_state("Halt!", Some("v"));
    let r = s.start_all_voices(&key("k")).expect("a request");
    assert_eq!(r.file_name, format!("dlg_{}.mp3", &uuid_text(id)[..8]));
    if let NodeType::Dialogue(ref mut d) = s.graph.nodes[0].node_type {
        d.audio_clip = Some("done.mp3".to_string());
    }
    assert!(s.start_all_voices(&key("k")).is_none());
    assert_eq!(status(&s), ("No pending voice generation".to_string(), false));
}

#[test]
fn fetching_voices_needs_a_key() {
    let mut s = state_with(Vec::new());
    assert!(!s.start_fetch_voices(&None));
    assert_eq!(status(&s), ("ElevenLabs API key not set \u{2014} open Settings".to_string(), true));
    assert!(s.start_fetch_voices(&key("k")));
    assert_eq!(status(&s), ("Fetching voice list...".to_string(), false));
}

fn uuid_text(id: u128) -> String {
    talenode::ident::uuid_text(id)
}

#[test]
fn async_channel_translation_done() {
    let (tx, rx) = std::sync::mpsc::channel();
    tx.send(AsyncResult::TranslationDone {
        locale: "fr".to_string(),
        translations: vec![
            ("dlg_abc".to_string(), "Bonjour".to_string()),
            ("dlg_def".to_string(), "Au revoir".to_string()),
        ],
    })
    .unwrap();
    let result = rx.try_recv().unwrap();
    if let AsyncResult::TranslationDone { locale, translations } = result {
        assert_eq!(locale, "fr");
        assert_eq!(translations.len(), 2);
        assert_eq!(translations[0], ("dlg_abc".to_string(), "Bonjour".to_string()));
    } else {
        panic!("Wrong variant");
    }
}

#[test]
fn async_channel_voice_generated() {
    let (tx, rx) = std::sync::mpsc::channel();
    let node_id = talenode::ident::fresh_id();
    tx.send(AsyncResult::VoiceGenerated {
        node_id,
        audio_path: "voices/dlg_abc.mp3".to_string(),
    })
    .unwrap();
    let result = rx.try_recv().unwrap();
    if let AsyncResult::VoiceGenerated { node_id: id, audio_path } = result {
        assert_eq!(id, node_id);
        assert_eq!(audio_path, "voices/dlg_abc.mp3");
    } else {
        panic!("Wrong variant");
    }
}

#[test]
fn async_channel_empty_returns_none() {
    let (_tx, rx) = std::sync::mpsc::channel::<AsyncResult>();
    assert!(rx.try_recv().is_err());
}
