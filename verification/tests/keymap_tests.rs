//! The keymap: trie construction, key-notation parsing, and the modal
//! resolver's behaviour over key sequences.
use sytui::commands::MappableCommand;
use sytui::editor::Mode;
use sytui::keymap::{default_keymap, KeyTrie, KeyTrieNode, KeymapResult, Keymaps};
use sytui::keys::{str_to_keycode, KeyCode, KeyEvent, KeyModifiers, KeyParseError};

fn key(c: char) -> KeyEvent {
    KeyEvent::plain(KeyCode::Char(c))
}

fn leaf(cmd: MappableCommand) -> KeyTrie {
    KeyTrie::MappableCommand(cmd)
}

fn build_normal_trie() -> KeyTrie {
    let goto = KeyTrieNode::new(
        "Goto",
        vec![
            (key('g'), leaf(MappableCommand::GotoFileStart)),
            (key('e'), leaf(MappableCommand::GotoWordEnd)),
        ],
    );
    let normal = KeyTrieNode::new(
        "Normal mode",
        vec![
            (key('h'), leaf(MappableCommand::MoveCursorLeft)),
            (KeyEvent::plain(KeyCode::Left), leaf(MappableCommand::MoveCursorLeft)),
            (key('j'), leaf(MappableCommand::MoveCursorDown)),
            (KeyEvent::plain(KeyCode::Down), leaf(MappableCommand::MoveCursorDown)),
            (key('k'), leaf(MappableCommand::MoveCursorUp)),
            (KeyEvent::plain(KeyCode::Up), leaf(MappableCommand::MoveCursorUp)),
            (key('l'), leaf(MappableCommand::MoveCursorRight)),
            (KeyEvent::plain(KeyCode::Right), leaf(MappableCommand::MoveCursorRight)),
            (key('v'), leaf(MappableCommand::SelectMode)),
            (key('G'), leaf(MappableCommand::GotoLine)),
            (key('g'), KeyTrie::Node(goto)),
        ],
    );
    KeyTrie::Node(normal)
}

#[test]
fn test_macro_keymap() {
    let normal = build_normal_trie();
    assert!(matches!(normal, KeyTrie::Node(_)), "Test NormalKeyTrie type");
    let key_trie_node = match normal {
        KeyTrie::Node(n) => n,
        _ => panic!("Expected Node"),
    };
    assert_eq!(key_trie_node.name, "Normal mode", "Test NormalKeyTrie name");

    let key_event_j = key_trie_node.get(&KeyEvent::plain(KeyCode::Char('j')));
    assert!(key_event_j.is_some(), "Get key event `j`");
    let key_event_down = key_trie_node.get(&KeyEvent::plain(KeyCode::Down));
    assert!(key_event_down.is_some(), "Get key event `g`");
    let key_event_g = key_trie_node.get(&KeyEvent::plain(KeyCode::Char('g')));
    assert!(key_event_g.is_some(), "Get key event `g`");
}

#[test]
fn duplicate_binding_is_a_build_error() {
    let mut node = KeyTrieNode::empty("Normal mode");
    assert!(node.insert(key('h'), leaf(MappableCommand::MoveCursorLeft)).is_ok());
    let again = node.insert(key('h'), leaf(MappableCommand::MoveCursorRight));
    assert_eq!(again, Err(key('h')));
    // the node kept its first binding
    assert_eq!(node.map.len(), 1);
}

#[test]
fn goto_goto_resolves_goto_file_start() {
    // Modal sequence "g" then "g" in Normal mode: the first key leaves the
    // resolver pending on the Goto node, the second resolves the command and
    // clears the pending state.
    let mut keymaps = Keymaps::default();
    let first = keymaps.get(Mode::Normal, key('g'));
    match first {
        KeymapResult::Pending(node) => assert_eq!(node.name, "Goto"),
        other => panic!("expected Pending, got {:?}", other),
    }
    assert_eq!(keymaps.pending().len(), 1);
    let second = keymaps.get(Mode::Normal, key('g'));
    assert_eq!(second, KeymapResult::Matched(MappableCommand::GotoFileStart));
    assert!(keymaps.pending().is_empty());
}

#[test]
fn single_key_resolves_directly() {
    let mut keymaps = Keymaps::default();
    let r = keymaps.get(Mode::Normal, key('j'));
    assert_eq!(r, KeymapResult::Matched(MappableCommand::MoveCursorDown));
    assert!(keymaps.pending().is_empty());
}

#[test]
fn unbound_key_is_not_found() {
    let mut keymaps = Keymaps::default();
    let r = keymaps.get(Mode::Normal, key('q'));
    assert_eq!(r, KeymapResult::NotFound);
    assert!(keymaps.pending().is_empty());
}

#[test]
fn unbound_continuation_is_cancelled_with_the_buffer() {
    let mut keymaps = Keymaps::default();
    assert!(matches!(keymaps.get(Mode::Normal, key('g')), KeymapResult::Pending(_)));
    let r = keymaps.get(Mode::Normal, key('x'));
    assert_eq!(r, KeymapResult::Cancelled(vec![key('g'), key('x')]));
    assert!(keymaps.pending().is_empty());
}

#[test]
fn escape_cancels_pending_keys() {
    let mut keymaps = Keymaps::default();
    assert!(matches!(keymaps.get(Mode::Normal, key('g')), KeymapResult::Pending(_)));
    let r = keymaps.get(Mode::Normal, KeyEvent::plain(KeyCode::Esc));
    // Escape itself is not part of the cancelled buffer
    assert_eq!(r, KeymapResult::Cancelled(vec![key('g')]));
    assert!(keymaps.pending().is_empty());
}

#[test]
fn sticky_node_persists_across_single_keys() {
    // A sticky node, once entered, resolves subsequent single keys directly
    // until Escape clears it.
    let mut sticky = KeyTrieNode::new(
        "Repeat",
        vec![(key('n'), leaf(MappableCommand::MoveCursorDown))],
    );
    sticky.is_sticky = true;
    let root = KeyTrieNode::new("Normal mode", vec![(key('z'), KeyTrie::Node(sticky))]);
    let mut keymaps = Keymaps::new(vec![(Mode::Normal, KeyTrie::Node(root))]);

    let enter = keymaps.get(Mode::Normal, key('z'));
    assert!(matches!(enter, KeymapResult::Pending(_)));
    assert!(keymaps.sticky.is_some());
    assert!(keymaps.pending().is_empty());

    // single keys now resolve against the sticky node, repeatedly
    assert_eq!(
        keymaps.get(Mode::Normal, key('n')),
        KeymapResult::Matched(MappableCommand::MoveCursorDown)
    );
    assert_eq!(
        keymaps.get(Mode::Normal, key('n')),
        KeymapResult::Matched(MappableCommand::MoveCursorDown)
    );

    // Escape with nothing pending clears the sticky node
    let r = keymaps.get(Mode::Normal, KeyEvent::plain(KeyCode::Esc));
    assert_eq!(r, KeymapResult::NotFound);
    assert!(keymaps.sticky.is_none());
    assert_eq!(keymaps.get(Mode::Normal, key('n')), KeymapResult::NotFound);
}

#[test]
fn default_keymap_binds_normal_mode() {
    let map = default_keymap();
    assert_eq!(map.len(), 1);
    assert_eq!(map[0].0, Mode::Normal);
    assert!(matches!(map[0].1, KeyTrie::Node(_)));
}

#[test]
fn parse_plain_and_modified_keys() {
    assert_eq!(str_to_keycode("w"), Ok(KeyEvent::plain(KeyCode::Char('w'))));
    assert_eq!(
        str_to_keycode("C-w"),
        Ok(KeyEvent {
            code: KeyCode::Char('w'),
            modifiers: KeyModifiers { shift: false, alt: false, control: true },
        })
    );
    assert_eq!(str_to_keycode("tab"), Ok(KeyEvent::plain(KeyCode::Tab)));
    assert_eq!(str_to_keycode("F5"), Ok(KeyEvent::plain(KeyCode::F(5))));
    assert_eq!(str_to_keycode("space"), Ok(KeyEvent::plain(KeyCode::Char(' '))));
}

#[test]
fn parse_normalises_shifted_letters() {
    // C-S-r and C-R name the same key event
    assert_eq!(str_to_keycode("C-S-r"), str_to_keycode("C-R"));
    assert_eq!(
        str_to_keycode("S-a"),
        Ok(KeyEvent::plain(KeyCode::Char('A')))
    );
}

#[test]
fn parse_rejects_bad_input() {
    assert_eq!(str_to_keycode("frobnicate"), Err(KeyParseError::InvalidKeyCode));
    assert_eq!(str_to_keycode(""), Err(KeyParseError::InvalidKeyCode));
    assert_eq!(str_to_keycode("F99"), Err(KeyParseError::InvalidFunctionKey));
    assert_eq!(str_to_keycode("F0"), Err(KeyParseError::InvalidFunctionKey));
    assert_eq!(str_to_keycode("Fx"), Err(KeyParseError::InvalidFunctionKey));
    assert_eq!(str_to_keycode("Q-a"), Err(KeyParseError::InvalidKeyModifier));
    assert_eq!(str_to_keycode("C-C-a"), Err(KeyParseError::RepeatedKeyModifier));
}

#[test]
fn key_sequence_format_wraps_wide_names() {
    assert_eq!(str_to_keycode("w").unwrap().key_sequence_format(), "w");
    assert_eq!(str_to_keycode("C-w").unwrap().key_sequence_format(), "<C-w>");
    assert_eq!(str_to_keycode(" ").unwrap().key_sequence_format(), "<space>");
}

#[test]
fn key_width_counts_notation_columns() {
    assert_eq!(str_to_keycode("w").unwrap().width(), 1);
    assert_eq!(str_to_keycode("C-w").unwrap().width(), 3);
    assert_eq!(str_to_keycode("esc").unwrap().width(), 3);
    assert_eq!(str_to_keycode("backspace").unwrap().width(), 9);
    assert_eq!(str_to_keycode("F5").unwrap().width(), 2);
    assert_eq!(str_to_keycode("F12").unwrap().width(), 3);
}

#[test]
fn key_char_returns_the_character() {
    assert_eq!(key('x').char(), Some('x'));
    assert_eq!(KeyEvent::plain(KeyCode::Esc).char(), None);
}
