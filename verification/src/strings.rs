//! The interface's fixed text, in English and Brazilian Portuguese.

use vstd::prelude::*;
use crate::text::{ascii_lower, decimal, push_decimal, to_ascii_lower};

verus! {

/// A language the interface is written in.
#[derive(Debug, Clone, Copy, PartialEq, Eq, Structural)]
pub enum Lang {
    En,
    PtBr,
}

/// The first of the three values that is set.
pub open spec fn first_set(
    lc_all: Option<&str>,
    lc_messages: Option<&str>,
    lang: Option<&str>,
) -> Option<Seq<char>> {
    match (lc_all, lc_messages, lang) {
        (Some(v), _, _) => Some(v@),
        (None, Some(v), _) => Some(v@),
        (None, None, Some(v)) => Some(v@),
        (None, None, None) => None,
    }
}

/// `s` starts with `pt`, letters compared without regard to ASCII case.
pub open spec fn names_portuguese(s: Seq<char>) -> bool {
    s.len() >= 2 && ascii_lower(s[0]) == 'p' && ascii_lower(s[1]) == 't'
}

/// A character lower-cases to `p` exactly when it is `p` or `P`, and to `t`
/// exactly when it is `t` or `T`.
pub proof fn lemma_lower_p_and_t(c: char)
    ensures
        ascii_lower(c) == 'p' <==> (c == 'p' || c == 'P'),
        ascii_lower(c) == 't' <==> (c == 't' || c == 'T'),
{
    if 'A' <= c && c <= 'Z' {
        assert((c as u32) + 32 == ascii_lower(c) as u32);
    }
}

/// A locale value names Portuguese exactly when its first character is `p` or
/// `P` and its second is `t` or `T`: a value such as `pl_PL.UTF-8`, whose
/// second letter is no `t`, names another language.
pub proof fn lemma_portuguese_needs_p_then_t(s: Seq<char>)
    ensures
        names_portuguese(s) <==> (s.len() >= 2 && (s[0] == 'p' || s[0] == 'P') && (s[1] == 't'
            || s[1] == 'T')),
{
    if s.len() >= 2 {
        lemma_lower_p_and_t(s[0]);
        lemma_lower_p_and_t(s[1]);
    }
}

fn starts_with_pt(s: &str) -> (r: bool)
    ensures
        r == names_portuguese(s@),
{
    let n = s.unicode_len();
    if n < 2 {
        return false;
    }
    to_ascii_lower(s.get_char(0)) == 'p' && to_ascii_lower(s.get_char(1)) == 't'
}

/// The interface language named by the locale variables `LC_ALL`,
/// `LC_MESSAGES` and `LANG`, in that order of priority: Portuguese when the
/// first one that is set starts with `pt` (in any case), English otherwise,
/// including when none is set.
pub fn lang_from_env(lc_all: Option<&str>, lc_messages: Option<&str>, lang: Option<&str>) -> (r: Lang)
    ensures
        r == (if first_set(lc_all, lc_messages, lang) matches Some(v) && names_portuguese(v) {
            Lang::PtBr
        } else {
            Lang::En
        }),
        r == Lang::PtBr <==> (first_set(lc_all, lc_messages, lang) matches Some(v) && v.len() >= 2
            && (v[0] == 'p' || v[0] == 'P') && (v[1] == 't' || v[1] == 'T')),
{
    proof {
        if let Some(v) = first_set(lc_all, lc_messages, lang) {
            lemma_portuguese_needs_p_then_t(v);
        }
    }
    let first = match lc_all {
        Some(v) => Some(v),
        None => match lc_messages {
            Some(v) => Some(v),
            None => lang,
        },
    };
    match first {
        Some(v) => {
            if starts_with_pt(v) {
                Lang::PtBr
            } else {
                Lang::En
            }
        },
        None => Lang::En,
    }
}

/// The warning that a recording ended early because of `error`.
pub open spec fn recording_stopped_early_text(lang: Lang, error: Seq<char>) -> Seq<char> {
    (match lang {
        Lang::En => "The recording stopped earlier than expected: "@,
        Lang::PtBr => "A gravação parou antes do esperado: "@,
    }) + error
}

/// The warning that exporting failed because of `error`.
pub open spec fn export_failed_text(lang: Lang, error: Seq<char>) -> Seq<char> {
    (match lang {
        Lang::En => "Failed to export: "@,
        Lang::PtBr => "Falha ao exportar: "@,
    }) + error
}

/// Every fixed piece of interface text, in one language.
pub struct Strings {
    pub lang: Lang,
    pub donation_link: &'static str,
    pub record_screen_heading: &'static str,
    pub record_screen_subtitle: &'static str,
    pub ready_to_record: &'static str,
    pub full_screen_button: &'static str,
    pub select_area_button: &'static str,
    pub stop_button: &'static str,
    pub hint_crop: &'static str,
    pub hint_blur: &'static str,
    pub hint_text: &'static str,
    pub play_button: &'static str,
    pub pause_button: &'static str,
    pub tool_select: &'static str,
    pub tool_crop: &'static str,
    pub tool_blur: &'static str,
    pub tool_text: &'static str,
    pub duplicate_button: &'static str,
    pub move_left_button: &'static str,
    pub move_right_button: &'static str,
    pub delete_frame_button: &'static str,
    pub intensity_label: &'static str,
    pub export_button: &'static str,
    pub new_recording_link: &'static str,
    pub recording_label: &'static str,
    pub processing_label: &'static str,
    pub exporting_label: &'static str,
}

/// The text of the English interface.
pub open spec fn english() -> Strings {
    Strings {
        lang: Lang::En,
        donation_link: "Support the project on Ko-fi",
        record_screen_heading: "Record screen",
        record_screen_subtitle: "Choose the frame rate and record your screen or a selected area.",
        ready_to_record: "Ready to record",
        full_screen_button: "Full Screen",
        select_area_button: "Select Area",
        stop_button: "Stop",
        hint_crop: "Drag over the preview to crop.",
        hint_blur: "Drag over the preview to blur.",
        hint_text: "Click the preview to position the text.",
        play_button: "Play",
        pause_button: "Pause",
        tool_select: "Select",
        tool_crop: "Crop",
        tool_blur: "Blur",
        tool_text: "Text",
        duplicate_button: "Duplicate",
        move_left_button: "< Move",
        move_right_button: "Move >",
        delete_frame_button: "Delete frame",
        intensity_label: "Intensity",
        export_button: "Export",
        new_recording_link: "< New recording",
        recording_label: "Recording...",
        processing_label: "Processing recording...",
        exporting_label: "Exporting...",
    }
}

/// The text of the Brazilian Portuguese interface.
pub open spec fn portuguese() -> Strings {
    Strings {
        lang: Lang::PtBr,
        donation_link: "Apoie o projeto no Ko-fi",
        record_screen_heading: "Gravar tela",
        record_screen_subtitle: "Escolha a taxa de quadros e grave sua tela ou uma área selecionada.",
        ready_to_record: "Pronto para gravar",
        full_screen_button: "Tela Inteira",
        select_area_button: "Selecionar Área",
        stop_button: "Parar",
        hint_crop: "Arraste sobre o preview para recortar.",
        hint_blur: "Arraste sobre o preview para borrar.",
        hint_text: "Clique no preview para posicionar o texto.",
        play_button: "Reproduzir",
        pause_button: "Pausar",
        tool_select: "Selecionar",
        tool_crop: "Recortar",
        tool_blur: "Blur",
        tool_text: "Texto",
        duplicate_button: "Duplicar",
        move_left_button: "< Mover",
        move_right_button: "Mover >",
        delete_frame_button: "Excluir frame",
        intensity_label: "Intensidade",
        export_button: "Exportar",
        new_recording_link: "< Nova gravação",
        recording_label: "Gravando...",
        processing_label: "Processando gravação...",
        exporting_label: "Exportando...",
    }
}

/// The two reorder buttons carry the same word, the one that moves the
/// selected frame a place to the left with an arrow `< ` before it, the one
/// that moves it to the right with an arrow ` >` after it.
pub open spec fn move_labels_point_their_way(s: Strings) -> bool {
    let left = s.move_left_button@;
    let right = s.move_right_button@;
    &&& left.len() >= 2
    &&& right.len() >= 2
    &&& left[0] == '<' && left[1] == ' '
    &&& right[right.len() - 2] == ' ' && right[right.len() - 1] == '>'
    &&& left.skip(2) == right.take(right.len() - 2)
}

/// In every language the move-left button reads `< word` and the move-right
/// button `word >`, never the other way round.
pub proof fn lemma_move_labels_point_their_way(lang: Lang)
    ensures
        move_labels_point_their_way(
            match lang {
                Lang::En => english(),
                Lang::PtBr => portuguese(),
            },
        ),
{
    reveal_strlit("< Move");
    reveal_strlit("Move >");
    reveal_strlit("< Mover");
    reveal_strlit("Mover >");
    assert("< Move"@.skip(2) =~= "Move >"@.take(4));
    assert("< Mover"@.skip(2) =~= "Mover >"@.take(5));
}

impl Lang {
    /// The interface text in this language.
    pub fn strings(self) -> (r: Strings)
        ensures
            r == (match self {
                Lang::En => english(),
                Lang::PtBr => portuguese(),
            }),
            r.language() == self,
            move_labels_point_their_way(r),
    {
        proof {
            lemma_move_labels_point_their_way(self);
        }
        match self {
            Lang::En => Strings {
                lang: Lang::En,
                donation_link: "Support the project on Ko-fi",
                record_screen_heading: "Record screen",
                record_screen_subtitle: "Choose the frame rate and record your screen or a selected area.",
                ready_to_record: "Ready to record",
                full_screen_button: "Full Screen",
                select_area_button: "Select Area",
                stop_button: "Stop",
                hint_crop: "Drag over the preview to crop.",
                hint_blur: "Drag over the preview to blur.",
                hint_text: "Click the preview to position the text.",
                play_button: "Play",
                pause_button: "Pause",
                tool_select: "Select",
                tool_crop: "Crop",
                tool_blur: "Blur",
                tool_text: "Text",
                duplicate_button: "Duplicate",
                move_left_button: "< Move",
                move_right_button: "Move >",
                delete_frame_button: "Delete frame",
                intensity_label: "Intensity",
                export_button: "Export",
                new_recording_link: "< New recording",
                recording_label: "Recording...",
                processing_label: "Processing recording...",
                exporting_label: "Exporting...",
            },
            Lang::PtBr => Strings {
                lang: Lang::PtBr,
                donation_link: "Apoie o projeto no Ko-fi",
                record_screen_heading: "Gravar tela",
                record_screen_subtitle: "Escolha a taxa de quadros e grave sua tela ou uma área selecionada.",
                ready_to_record: "Pronto para gravar",
                full_screen_button: "Tela Inteira",
                select_area_button: "Selecionar Área",
                stop_button: "Parar",
                hint_crop: "Arraste sobre o preview para recortar.",
                hint_blur: "Arraste sobre o preview para borrar.",
                hint_text: "Clique no preview para posicionar o texto.",
                play_button: "Reproduzir",
                pause_button: "Pausar",
                tool_select: "Selecionar",
                tool_crop: "Recortar",
                tool_blur: "Blur",
                tool_text: "Texto",
                duplicate_button: "Duplicar",
                move_left_button: "< Mover",
                move_right_button: "Mover >",
                delete_frame_button: "Excluir frame",
                intensity_label: "Intensidade",
                export_button: "Exportar",
                new_recording_link: "< Nova gravação",
                recording_label: "Gravando...",
                processing_label: "Processando gravação...",
                exporting_label: "Exportando...",
            },
        }
    }
}

impl Strings {
    /// The language of this text.
    pub open spec fn language(&self) -> Lang {
        self.lang
    }

    pub fn lang(&self) -> (r: Lang)
        ensures
            r == self.language(),
    {
        self.lang
    }

    /// "Frame `current` of `total`", numbers in decimal.
    pub fn frame_x_of_n(&self, current: usize, total: usize) -> (r: String)
        ensures
            r@ == "Frame "@ + decimal(current as nat) + (match self.language() {
                Lang::En => " of "@,
                Lang::PtBr => " de "@,
            }) + decimal(total as nat),
    {
        let mut r = String::from_str("Frame ");
        push_decimal(&mut r, current as u64);
        match self.lang {
            Lang::En => r.append(" of "),
            Lang::PtBr => r.append(" de "),
        }
        push_decimal(&mut r, total as u64);
        r
    }

    /// Where the exported file was saved.
    pub fn saved_to(&self, path: &str) -> (r: String)
        ensures
            r@ == (match self.language() {
                Lang::En => "Saved to: "@,
                Lang::PtBr => "Salvo em: "@,
            }) + path@,
    {
        let mut r = match self.lang {
            Lang::En => String::from_str("Saved to: "),
            Lang::PtBr => String::from_str("Salvo em: "),
        };
        r.append(path);
        r
    }

    /// The recording ended early because of `error`.
    pub fn recording_stopped_early(&self, error: &str) -> (r: String)
        ensures
            r@ == recording_stopped_early_text(self.language(), error@),
    {
        let mut r = match self.lang {
            Lang::En => String::from_str("The recording stopped earlier than expected: "),
            Lang::PtBr => String::from_str("A gravação parou antes do esperado: "),
        };
        r.append(error);
        r
    }

    /// Exporting failed because of `error`.
    pub fn export_failed(&self, error: &str) -> (r: String)
        ensures
            r@ == export_failed_text(self.language(), error@),
    {
        let mut r = match self.lang {
            Lang::En => String::from_str("Failed to export: "),
            Lang::PtBr => String::from_str("Falha ao exportar: "),
        };
        r.append(error);
        r
    }
}

} // verus!
