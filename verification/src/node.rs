//! Document node kinds and node identifiers, as the note files name them.
use vstd::prelude::*;
use vstd::string::StringSliceAdditionalSpecFns;

verus! {

/// The kind of a document node.
#[derive(Debug, Clone, Copy, PartialEq, Eq, Structural, Default)]
pub enum NodeType {
    #[default]
    Default,
    NodeDocument,
    NodeParagraph,
    NodeHeading,
    NodeHeadingC8hMarker,
    NodeThematicBreak,
    NodeBlockquote,
    NodeBlockquoteMarker,
    NodeList,
    NodeListItem,
    NodeHtmlBlock,
    NodeInlineHtml,
    NodeCodeBlock,
    NodeCodeBlockFenceOpenMarker,
    NodeCodeBlockFenceCloseMarker,
    NodeCodeBlockFenceInfoMarker,
    NodeCodeBlockCode,
    NodeText,
    NodeEmphasis,
    NodeEmA6kOpenMarker,
    NodeEmA6kCloseMarker,
    NodeEmU8eOpenMarker,
    NodeEmU8eCloseMarker,
    NodeStrong,
    NodeStrongA6kOpenMarker,
    NodeStrongA6kCloseMarker,
    NodeStrongU8eOpenMarker,
    NodeStrongU8eCloseMarker,
    NodeCodeSpan,
    NodeCodeSpanOpenMarker,
    NodeCodeSpanContent,
    NodeCodeSpanCloseMarker,
    NodeHardBreak,
    NodeSoftBreak,
    NodeLink,
    NodeImage,
    NodeBang,
    NodeOpenBracket,
    NodeCloseBracket,
    NodeOpenParen,
    NodeCloseParen,
    NodeLinkText,
    NodeLinkDest,
    NodeLinkTitle,
    NodeLinkSpace,
    NodeHtmlEntity,
    NodeLinkRefDefBlock,
    NodeLinkRefDef,
    NodeLess,
    NodeGreater,
    NodeTaskListItemMarker,
    NodeStrikethrough,
    NodeStrikethrough1OpenMarker,
    NodeStrikethrough1CloseMarker,
    NodeStrikethrough2OpenMarker,
    NodeStrikethrough2CloseMarker,
    NodeTable,
    NodeTableHead,
    NodeTableRow,
    NodeTableCell,
    NodeEmoji,
    NodeEmojiUnicode,
    NodeEmojiImg,
    NodeEmojiAlias,
    NodeMathBlock,
    NodeMathBlockOpenMarker,
    NodeMathBlockContent,
    NodeMathBlockCloseMarker,
    NodeInlineMath,
    NodeInlineMathOpenMarker,
    NodeInlineMathContent,
    NodeInlineMathCloseMarker,
    NodeBackslash,
    NodeBackslashContent,
    NodeVditorCaret,
    NodeFootnotesDefBlock,
    NodeFootnotesDef,
    NodeFootnotesRef,
    NodeToc,
    NodeHeadingId,
    NodeYamlFrontMatter,
    NodeYamlFrontMatterOpenMarker,
    NodeYamlFrontMatterContent,
    NodeYamlFrontMatterCloseMarker,
    NodeBlockRef,
    NodeBlockRefId,
    NodeBlockRefSpace,
    NodeBlockRefText,
    NodeBlockRefDynamicText,
    NodeMark,
    NodeMark1OpenMarker,
    NodeMark1CloseMarker,
    NodeMark2OpenMarker,
    NodeMark2CloseMarker,
    NodeKramdownBlockIal,
    NodeKramdownSpanIal,
    NodeTag,
    NodeTagOpenMarker,
    NodeTagCloseMarker,
    NodeBlockQueryEmbed,
    NodeOpenBrace,
    NodeCloseBrace,
    NodeBlockQueryEmbedScript,
    NodeSuperBlock,
    NodeSuperBlockOpenMarker,
    NodeSuperBlockLayoutMarker,
    NodeSuperBlockCloseMarker,
    NodeSup,
    NodeSupOpenMarker,
    NodeSupCloseMarker,
    NodeSub,
    NodeSubOpenMarker,
    NodeSubCloseMarker,
    NodeGitConflict,
    NodeGitConflictOpenMarker,
    NodeGitConflictContent,
    NodeGitConflictCloseMarker,
    NodeIFrame,
    NodeAudio,
    NodeVideo,
    NodeKbd,
    NodeKbdOpenMarker,
    NodeKbdCloseMarker,
    NodeUnderline,
    NodeUnderlineOpenMarker,
    NodeUnderlineCloseMarker,
    NodeBr,
    NodeTextMark,
    NodeWidget,
    NodeFileAnnotationRef,
    NodeFileAnnotationRefId,
    NodeFileAnnotationRefSpace,
    NodeFileAnnotationRefText,
    NodeAttributeView,
    NodeCustomBlock,
    NodeHtmlTag,
    NodeHtmlTagOpen,
    NodeHtmlTagClose,
    NodeMaxVal,
}

/// Parser feature switches for the document format.
#[derive(Debug, Clone, Default)]
pub struct Options {
    pub gfm_table: bool,
    pub gfm_task_list_item: bool,
    pub gfm_strikethrough: bool,
    pub gfm_strikethrough_single: bool,
    pub gfm_auto_link: bool,
    pub footnotes: bool,
    pub heading_id: bool,
    pub toc: bool,
    pub yaml_front_matter: bool,
    pub block_ref: bool,
    pub file_annotation_ref: bool,
    pub super_block: bool,
    pub indent_code_block: bool,
    pub inline_math: bool,
    pub inline_math_allow_digit_after_open: bool,
    pub mark: bool,
    pub sup: bool,
    pub sub: bool,
    pub tag: bool,
    pub link_ref: bool,
    pub setext_heading: bool,
    pub paragraph_beginning_space: bool,
    pub img_path_allow_space: bool,
    pub data_image: bool,
    pub kramdown_block_ial: bool,
    pub kramdown_span_ial: bool,
    pub inline_asterisk: bool,
    pub inline_underscore: bool,
    pub git_conflict: bool,
    pub text_mark: bool,
    pub html_tag_to_text_mark: bool,
    pub spin: bool,
    pub emoji: bool,
    pub emoji_site: String,
    pub alias_emoji: Vec<(String, String)>,
    pub emoji_alias: Vec<(String, String)>,
    pub vditor_wysiwyg: bool,
    pub vditor_ir: bool,
    pub vditor_sv: bool,
    pub protyle_wysiwyg: bool,
}

/// An ASCII decimal digit, as a byte.
pub open spec fn spec_is_digit_byte(b: u8) -> bool {
    48 <= b && b <= 57
}

/// An ASCII lowercase letter or decimal digit, as a byte.
pub open spec fn spec_is_lower_or_digit_byte(b: u8) -> bool {
    spec_is_digit_byte(b) || (97 <= b && b <= 122)
}

/// A node identifier: 14 digits (a timestamp), a dash, then 7 lowercase
/// letters or digits.
pub open spec fn spec_is_node_id(s: Seq<u8>) -> bool {
    &&& s.len() == 22
    &&& (forall|i: int| 0 <= i < 14 ==> spec_is_digit_byte(#[trigger] s[i]))
    &&& s[14] == 45
    &&& (forall|i: int| 15 <= i < 22 ==> spec_is_lower_or_digit_byte(#[trigger] s[i]))
}

/// Whether a string is shaped like a node identifier: a 14-digit timestamp, a
/// dash, and a 7-character lowercase-alphanumeric suffix.
pub fn is_node_id_pattern(s: &str) -> (r: bool)
    ensures
        r == spec_is_node_id(s.spec_bytes()),
{
    let b = s.as_bytes();
    if b.len() != 22 {
        return false;
    }
    if b[14] != 45 {
        return false;
    }
    let mut i: usize = 0;
    while i < 14
        invariant
            b@.len() == 22,
            b@ == s.spec_bytes(),
            i <= 14,
            forall|j: int| 0 <= j < i ==> spec_is_digit_byte(#[trigger] b@[j]),
        decreases 14 - i,
    {
        if !(48 <= b[i] && b[i] <= 57) {
            return false;
        }
        i = i + 1;
    }
    let mut i: usize = 15;
    while i < 22
        invariant
            b@.len() == 22,
            b@ == s.spec_bytes(),
            15 <= i <= 22,
            forall|j: int| 0 <= j < 14 ==> spec_is_digit_byte(#[trigger] b@[j]),
            forall|j: int| 15 <= j < i ==> spec_is_lower_or_digit_byte(#[trigger] b@[j]),
        decreases 22 - i,
    {
        let c = b[i];
        if !((48 <= c && c <= 57) || (97 <= c && c <= 122)) {
            return false;
        }
        i = i + 1;
    }
    true
}

} // verus!
