//! The `model list` command's rows: each local model's download status,
//! and how a row is written when the output is not a terminal.

use vstd::prelude::*;

use crate::text::{owned, push_all};

verus! {

/// One local model as the list shows it.
pub struct ModelRow {
    pub name: String,
    pub kind: String,
    pub status: String,
    pub display_name: String,
    pub description: String,
    pub active: bool,
    pub install_path: String,
}

/// A model's status: `downloaded`; when not downloaded, `not-downloaded` if
/// it can be fetched, else `unavailable`; `error` when the check failed.
pub open spec fn status_text(downloaded: Result<bool, ()>, has_download_url: bool) -> Seq<char> {
    match downloaded {
        Ok(true) => "downloaded"@,
        Ok(false) => if has_download_url {
            "not-downloaded"@
        } else {
            "unavailable"@
        },
        Err(_) => "error"@,
    }
}

/// The status of a model from the outcome of the download check.
pub fn model_status(downloaded: Result<bool, ()>, has_download_url: bool) -> (r: String)
    ensures
        r@ == status_text(downloaded, has_download_url),
{
    match downloaded {
        Ok(true) => owned("downloaded"),
        Ok(false) => if has_download_url {
            owned("not-downloaded")
        } else {
            owned("unavailable")
        },
        Err(_) => owned("error"),
    }
}

/// Law: a model is `downloaded` exactly when the download check says so,
/// whatever its download URL; `error` exactly when the check failed; and the
/// URL only matters for a model that is not downloaded, where it tells
/// `not-downloaded` (it can be fetched) from `unavailable`.
pub proof fn law_status_follows_check(downloaded: Result<bool, ()>, has_download_url: bool)
    ensures
        (status_text(downloaded, has_download_url) == "downloaded"@) <==> (downloaded == Ok::<bool, ()>(true)),
        (status_text(downloaded, has_download_url) == "error"@) <==> (downloaded is Err),
        downloaded != Ok::<bool, ()>(false) ==> status_text(downloaded, true) == status_text(downloaded, false),
        downloaded == Ok::<bool, ()>(false) ==> status_text(downloaded, true) != status_text(downloaded, false),
        (status_text(downloaded, has_download_url) == "not-downloaded"@) <==> (downloaded == Ok::<bool, ()>(false) && has_download_url),
{
    reveal_strlit("downloaded");
    reveal_strlit("not-downloaded");
    reveal_strlit("unavailable");
    reveal_strlit("error");
    assert("downloaded"@ != "not-downloaded"@ && "downloaded"@ != "unavailable"@ && "downloaded"@ != "error"@) by {
        assert("downloaded"@[0] != "not-downloaded"@[0]);
        assert("downloaded"@[0] != "unavailable"@[0]);
        assert("downloaded"@[0] != "error"@[0]);
    }
    assert("not-downloaded"@ != "unavailable"@ && "not-downloaded"@ != "error"@ && "unavailable"@ != "error"@) by {
        assert("not-downloaded"@[0] != "unavailable"@[0]);
        assert("not-downloaded"@[0] != "error"@[0]);
        assert("unavailable"@[0] != "error"@[0]);
    }
}

/// The colour of a status cell in the table.
#[derive(Clone, Copy, Debug, PartialEq, Eq, Structural)]
pub enum StatusColor {
    Green,
    Yellow,
    DarkGrey,
    Red,
    Plain,
}

/// The colour of a status: green, yellow, dark grey and red for the four
/// known statuses, none for anything else.
pub open spec fn status_color_of(status: Seq<char>) -> StatusColor {
    if status == "downloaded"@ {
        StatusColor::Green
    } else if status == "not-downloaded"@ {
        StatusColor::Yellow
    } else if status == "unavailable"@ {
        StatusColor::DarkGrey
    } else if status == "error"@ {
        StatusColor::Red
    } else {
        StatusColor::Plain
    }
}

/// The colour of a status cell.
pub fn status_color(status: &str) -> (r: StatusColor)
    ensures
        r == status_color_of(status@),
{
    if crate::text::str_eq(status, "downloaded") {
        StatusColor::Green
    } else if crate::text::str_eq(status, "not-downloaded") {
        StatusColor::Yellow
    } else if crate::text::str_eq(status, "unavailable") {
        StatusColor::DarkGrey
    } else if crate::text::str_eq(status, "error") {
        StatusColor::Red
    } else {
        StatusColor::Plain
    }
}

/// A row as one tab-separated line: a `*` for the active model, the name,
/// kind, status and display name, with the description in parentheses
/// after the display name when there is one.
pub open spec fn plain_line(row: ModelRow) -> Seq<char> {
    let active: Seq<char> = if row.active {
        "*"@
    } else {
        Seq::empty()
    };
    let head = active + "\t"@ + row.name@ + "\t"@ + row.kind@ + "\t"@ + row.status@ + "\t"@
        + row.display_name@;
    if row.description@.len() == 0 {
        head
    } else {
        head + " ("@ + row.description@ + ")"@
    }
}

impl ModelRow {
    /// The row as written when the output is not a terminal.
    pub fn plain_line(&self) -> (r: String)
        ensures
            r@ == plain_line(*self),
    {
        let mut s = String::new();
        if self.active {
            push_all(&mut s, "*");
        }
        proof {
            assert(s@ =~= (if self.active {
                "*"@
            } else {
                Seq::<char>::empty()
            }));
        }
        push_all(&mut s, "\t");
        push_all(&mut s, self.name.as_str());
        push_all(&mut s, "\t");
        push_all(&mut s, self.kind.as_str());
        push_all(&mut s, "\t");
        push_all(&mut s, self.status.as_str());
        push_all(&mut s, "\t");
        push_all(&mut s, self.display_name.as_str());
        if !self.description.as_str().is_empty() {
            push_all(&mut s, " (");
            push_all(&mut s, self.description.as_str());
            push_all(&mut s, ")");
        }
        proof {
            reveal_strlit("");
        }
        s
    }
}

} // verus!
