//! What the entry screen's widgets show: the command input box (its text,
//! provider status line and layout inside the terminal area) and the rows
//! of the command popup with the matched characters marked.

use vstd::prelude::*;

use crate::commands::{
    command_description, command_highlight_indices, command_name, highlight,
    lemma_command_names_ascii, slash_command, COMMAND_COUNT,
};
use crate::entry::opt_view;
use crate::text::{
    chars_of, lemma_utf8_len_ascii, owned, push_all, string_clone, string_of, strip_leading,
    strip_leading_chars, utf8_len,
};

verus! {

/// A rectangle of terminal cells.
#[derive(Clone, Copy, Debug, PartialEq, Eq, Structural)]
pub struct Area {
    pub x: u16,
    pub y: u16,
    pub width: u16,
    pub height: u16,
}

/// Where the parts of the command input go inside its area.
#[derive(Clone, Copy, Debug, PartialEq, Eq, Structural)]
pub struct InputLayout {
    /// The inset box: two columns of margin on each side.
    pub box_x: u16,
    pub box_width: u16,
    /// The text column, after the accent bar and its padding.
    pub content_x: u16,
    pub content_width: u16,
    /// The row of the input line.
    pub input_y: u16,
    /// The row of the provider status line, when the area has room for it.
    pub status_y: Option<u16>,
    /// The cursor's column, kept inside the box.
    pub cursor_x: u16,
}

/// `u16::saturating_sub`.
pub open spec fn sat_sub(a: int, b: int) -> int {
    if a >= b {
        a - b
    } else {
        0
    }
}

pub open spec fn min_int(a: int, b: int) -> int {
    if a <= b {
        a
    } else {
        b
    }
}

/// The layout of the command input in `area`, the cursor `cursor_col`
/// columns into the text (the column taken modulo 2^16, as a `u16` cast does).
pub open spec fn input_layout(area: Area, cursor_col: nat) -> InputLayout {
    let box_x = area.x + 2;
    let box_w = sat_sub(area.width as int, 4);
    let content_x = box_x + 3;
    let input_y = area.y + 1;
    let cursor = min_int(
        min_int(content_x + (cursor_col % 65536), 65535),
        box_x + sat_sub(box_w, 2),
    );
    InputLayout {
        box_x: box_x as u16,
        box_width: box_w as u16,
        content_x: content_x as u16,
        content_width: sat_sub(box_w, 4) as u16,
        input_y: input_y as u16,
        status_y: if area.height >= 4 {
            Some((input_y + 2) as u16)
        } else {
            None
        },
        cursor_x: cursor as u16,
    }
}

/// The command input box of the entry screen.
pub struct CommandInput {
    pub value: String,
    pub cursor_col: usize,
    pub stt_provider: Option<String>,
    pub llm_provider: Option<String>,
}

/// What the input line shows: the typed text, or when it is empty a
/// placeholder suggesting `/connect` until both providers are set, then
/// `/listen`.
pub open spec fn shown_input(
    value: Seq<char>,
    stt: Option<Seq<char>>,
    llm: Option<Seq<char>>,
) -> Seq<char> {
    if value.len() > 0 {
        value
    } else if stt is None || llm is None {
        "/connect"@
    } else {
        "/listen"@
    }
}

/// A provider's name on the status line, `none` when unset.
pub open spec fn provider_label(p: Option<Seq<char>>) -> Seq<char> {
    match p {
        Some(name) => name,
        None => "none"@,
    }
}

impl CommandInput {
    pub fn new(
        value: &str,
        cursor_col: usize,
        stt_provider: Option<&str>,
        llm_provider: Option<&str>,
    ) -> (r: CommandInput)
        ensures
            r.value@ == value@,
            r.cursor_col == cursor_col,
            opt_view(r.stt_provider) == (match stt_provider {
                Some(s) => Some(s@),
                None => None::<Seq<char>>,
            }),
            opt_view(r.llm_provider) == (match llm_provider {
                Some(s) => Some(s@),
                None => None::<Seq<char>>,
            }),
    {
        let stt = match stt_provider {
            Some(s) => Some(owned(s)),
            None => None,
        };
        let llm = match llm_provider {
            Some(s) => Some(owned(s)),
            None => None,
        };
        CommandInput { value: owned(value), cursor_col, stt_provider: stt, llm_provider: llm }
    }

    /// The text of the input line, and whether it is the placeholder.
    pub fn input_line(&self) -> (r: (String, bool))
        ensures
            r.0@ == shown_input(
                self.value@,
                opt_view(self.stt_provider),
                opt_view(self.llm_provider),
            ),
            r.1 == (self.value@.len() == 0),
    {
        if self.value.as_str().is_empty() {
            proof {
                reveal_strlit("");
            }
            if self.stt_provider.is_none() || self.llm_provider.is_none() {
                (owned("/connect"), true)
            } else {
                (owned("/listen"), true)
            }
        } else {
            proof {
                reveal_strlit("");
            }
            (string_clone(&self.value), false)
        }
    }

    /// The two texts after the `stt` and `llm` labels of the status line:
    /// ` {stt}  ` and ` {llm}`.
    pub fn status_texts(&self) -> (r: (String, String))
        ensures
            r.0@ == " "@ + provider_label(opt_view(self.stt_provider)) + "  "@,
            r.1@ == " "@ + provider_label(opt_view(self.llm_provider)),
    {
        let mut stt = String::new();
        push_all(&mut stt, " ");
        match &self.stt_provider {
            Some(s) => push_all(&mut stt, s.as_str()),
            None => push_all(&mut stt, "none"),
        }
        push_all(&mut stt, "  ");
        let mut llm = String::new();
        push_all(&mut llm, " ");
        match &self.llm_provider {
            Some(s) => push_all(&mut llm, s.as_str()),
            None => push_all(&mut llm, "none"),
        }
        proof {
            reveal_strlit("");
        }
        (stt, llm)
    }

    /// Where the box, the text, the status line and the cursor go in `area`.
    pub fn layout(&self, area: Area) -> (r: InputLayout)
        requires
            area.x + area.width <= u16::MAX,
            area.x + 5 <= u16::MAX,
            area.y + 1 <= u16::MAX,
            area.height >= 4 ==> area.y + 3 <= u16::MAX,
        ensures
            r == input_layout(area, self.cursor_col as nat),
    {
        let box_x = area.x + 2;
        let box_w = area.width.saturating_sub(4);
        let content_x = box_x + 3;
        let content_width = box_w.saturating_sub(4);
        let input_y = area.y + 1;
        let status_y = if area.height >= 4 {
            Some(input_y + 2)
        } else {
            None
        };
        let col = (self.cursor_col % 65536) as u16;
        let limit = box_x + box_w.saturating_sub(2);
        let reach = content_x.saturating_add(col);
        let cursor_x = if reach <= limit {
            reach
        } else {
            limit
        };
        InputLayout {
            box_x,
            box_width: box_w,
            content_x,
            content_width,
            input_y,
            status_y,
            cursor_x,
        }
    }
}

// ---------------------------------------------------------------------------
// Command popup
// ---------------------------------------------------------------------------

/// For each character of the command's name after its leading `/`s,
/// whether the query matched it.
pub open spec fn name_marks(command: Seq<char>, query: Seq<char>) -> Seq<bool> {
    Seq::new(
        strip_leading(command, '/').len(),
        |i: int| highlight(query, command).contains(i as nat),
    )
}

/// Which characters of a command's name to draw highlighted for `query`.
pub fn command_name_marks(command: &str, query: &str) -> (r: Vec<bool>)
    requires
        utf8_len(command@) <= usize::MAX,
    ensures
        r@ == name_marks(command@, query@),
{
    let cs = chars_of(command);
    let body = strip_leading_chars(cs.as_slice(), '/');
    let hits = command_highlight_indices(query, command);
    let ghost h = highlight(query@, command@);
    let mut marks: Vec<bool> = Vec::new();
    let mut i: usize = 0;
    while i < body.len()
        invariant
            i <= body.len(),
            body@ == strip_leading(command@, '/'),
            hits@.len() == h.len(),
            forall|k: int| 0 <= k < hits@.len() ==> hits@[k] as nat == #[trigger] h[k],
            h == highlight(query@, command@),
            marks@.len() == i,
            forall|k: int| 0 <= k < i ==> marks@[k] == #[trigger] h.contains(k as nat),
        decreases body.len() - i,
    {
        let mut found = false;
        let mut j: usize = 0;
        while j < hits.len()
            invariant
                j <= hits.len(),
                hits@.len() == h.len(),
                forall|k: int| 0 <= k < hits@.len() ==> hits@[k] as nat == #[trigger] h[k],
                found == exists|k: int| 0 <= k < j && h[k] == i as nat,
            decreases hits.len() - j,
        {
            proof {
                assert(hits@[j as int] as nat == h[j as int]);
            }
            if hits[j] == i {
                found = true;
            }
            j += 1;
        }
        proof {
            if h.contains(i as nat) {
                let k = choose|k: int| 0 <= k < h.len() && h[k] == i as nat;
                assert(hits@[k] as nat == h[k]);
            }
        }
        marks.push(found);
        i += 1;
    }
    proof {
        assert(marks@ =~= name_marks(command@, query@));
    }
    marks
}

/// One row of the command popup: `/`, the name's characters with their
/// marks, `padding` spaces, two spaces, and the description.
pub struct PopupRow {
    pub name: String,
    pub marks: Vec<bool>,
    pub padding: usize,
    pub description: String,
}

/// The row for the `i`-th command: names shorter than ten characters
/// (counting the `/`) are padded to ten.
pub open spec fn row_ok(row: PopupRow, i: int, query: Seq<char>) -> bool {
    &&& row.name@ == strip_leading(command_name(i), '/')
    &&& row.marks@ == name_marks(command_name(i), query)
    &&& row.padding == (if command_name(i).len() < 10 {
        10 - command_name(i).len()
    } else {
        0int
    })
    &&& row.description@ == command_description(i)
}

/// The command popup of the entry screen.
pub struct CommandPopup {
    pub filtered_commands: Vec<usize>,
    pub selected_index: usize,
    pub query: String,
}

impl CommandPopup {
    pub fn new(filtered_commands: &[usize], selected_index: usize, query: &str) -> (r: CommandPopup)
        ensures
            r.filtered_commands@ == filtered_commands@,
            r.selected_index == selected_index,
            r.query@ == query@,
    {
        let mut v: Vec<usize> = Vec::new();
        let mut i: usize = 0;
        while i < filtered_commands.len()
            invariant
                i <= filtered_commands.len(),
                v@ == filtered_commands@.take(i as int),
            decreases filtered_commands.len() - i,
        {
            v.push(filtered_commands[i]);
            proof {
                assert(filtered_commands@.take(i as int + 1) =~= filtered_commands@.take(
                    i as int,
                ).push(filtered_commands@[i as int]));
            }
            i += 1;
        }
        proof {
            assert(filtered_commands@.take(filtered_commands.len() as int) =~= filtered_commands@);
        }
        CommandPopup { filtered_commands: v, selected_index, query: owned(query) }
    }

    /// Whether the popup is drawn in an area `height` rows high: it needs three.
    pub fn shows_in(height: u16) -> (r: bool)
        ensures
            r == (height >= 3),
    {
        height >= 3
    }

    /// The rows of the popup, one per listed command, in order.
    pub fn rows(&self) -> (r: Vec<PopupRow>)
        requires
            forall|k: int|
                0 <= k < self.filtered_commands@.len() ==> #[trigger] self.filtered_commands@[k]
                    < COMMAND_COUNT,
        ensures
            r@.len() == self.filtered_commands@.len(),
            forall|k: int|
                0 <= k < r@.len() ==> row_ok(
                    #[trigger] r@[k],
                    self.filtered_commands@[k] as int,
                    self.query@,
                ),
    {
        let mut rows: Vec<PopupRow> = Vec::new();
        let mut k: usize = 0;
        while k < self.filtered_commands.len()
            invariant
                k <= self.filtered_commands@.len(),
                forall|j: int|
                    0 <= j < self.filtered_commands@.len() ==> #[trigger] self.filtered_commands@[j]
                        < COMMAND_COUNT,
                rows@.len() == k,
                forall|j: int|
                    0 <= j < k ==> row_ok(
                        #[trigger] rows@[j],
                        self.filtered_commands@[j] as int,
                        self.query@,
                    ),
            decreases self.filtered_commands@.len() - k,
        {
            let index = self.filtered_commands[k];
            let command = slash_command(index);
            proof {
                lemma_command_names_ascii(index as int);
                lemma_utf8_len_ascii(command_name(index as int));
            }
            let cs = chars_of(command.name);
            let body = strip_leading_chars(cs.as_slice(), '/');
            let marks = command_name_marks(command.name, self.query.as_str());
            let width = cs.len();
            let padding = if width < 10 {
                10 - width
            } else {
                0
            };
            rows.push(
                PopupRow {
                    name: string_of(body.as_slice()),
                    marks,
                    padding,
                    description: owned(command.description),
                },
            );
            k += 1;
        }
        rows
    }
}

} // verus!
