//! The keys the page-automation bridge can press through the DevTools
//! protocol. Anything outside this table is refused rather than guessed.

use vstd::prelude::*;

use crate::text::{owned, push_str, str_eq};

verus! {

/// The DevTools `key`, virtual key code and `text` of a named key.
pub open spec fn key_entry(name: Seq<char>) -> Option<(Seq<char>, i32, Seq<char>)> {
    if name == "Enter"@ {
        Some(("Enter"@, 0x0D, "Enter"@))
    } else if name == "Tab"@ {
        Some(("Tab"@, 0x09, "Tab"@))
    } else if name == "Escape"@ {
        Some(("Escape"@, 0x1B, "Escape"@))
    } else if name == "Backspace"@ {
        Some(("Backspace"@, 0x08, "Backspace"@))
    } else if name == "Delete"@ {
        Some(("Delete"@, 0x2E, "Delete"@))
    } else if name == "ArrowUp"@ {
        Some(("ArrowUp"@, 0x26, "ArrowUp"@))
    } else if name == "ArrowDown"@ {
        Some(("ArrowDown"@, 0x28, "ArrowDown"@))
    } else if name == "ArrowLeft"@ {
        Some(("ArrowLeft"@, 0x25, "ArrowLeft"@))
    } else if name == "ArrowRight"@ {
        Some(("ArrowRight"@, 0x27, "ArrowRight"@))
    } else if name == "Home"@ {
        Some(("Home"@, 0x24, "Home"@))
    } else if name == "End"@ {
        Some(("End"@, 0x23, "End"@))
    } else if name == "PageUp"@ {
        Some(("PageUp"@, 0x21, "PageUp"@))
    } else if name == "PageDown"@ {
        Some(("PageDown"@, 0x22, "PageDown"@))
    } else if name == "Space"@ {
        Some(("Space"@, 0x20, " "@))
    } else {
        None
    }
}

/// The DevTools `key`, virtual key code and `text` for the key `name`, or
/// `unsupported key: <name>`.
pub fn map_key(name: &str) -> (r: Result<(&'static str, i32, &'static str), String>)
    ensures
        match r {
            Ok((k, code, text)) => key_entry(name@) == Some((k@, code, text@)),
            Err(msg) => key_entry(name@) is None && msg@ == "unsupported key: "@ + name@,
        },
{
    let table: [(&'static str, i32, &'static str); 14] = [
        ("Enter", 0x0D, "Enter"),
        ("Tab", 0x09, "Tab"),
        ("Escape", 0x1B, "Escape"),
        ("Backspace", 0x08, "Backspace"),
        ("Delete", 0x2E, "Delete"),
        ("ArrowUp", 0x26, "ArrowUp"),
        ("ArrowDown", 0x28, "ArrowDown"),
        ("ArrowLeft", 0x25, "ArrowLeft"),
        ("ArrowRight", 0x27, "ArrowRight"),
        ("Home", 0x24, "Home"),
        ("End", 0x23, "End"),
        ("PageUp", 0x21, "PageUp"),
        ("PageDown", 0x22, "PageDown"),
        ("Space", 0x20, " "),
    ];
    if str_eq(name, "Enter") {
        return Ok(table[0]);
    }
    if str_eq(name, "Tab") {
        return Ok(table[1]);
    }
    if str_eq(name, "Escape") {
        return Ok(table[2]);
    }
    if str_eq(name, "Backspace") {
        return Ok(table[3]);
    }
    if str_eq(name, "Delete") {
        return Ok(table[4]);
    }
    if str_eq(name, "ArrowUp") {
        return Ok(table[5]);
    }
    if str_eq(name, "ArrowDown") {
        return Ok(table[6]);
    }
    if str_eq(name, "ArrowLeft") {
        return Ok(table[7]);
    }
    if str_eq(name, "ArrowRight") {
        return Ok(table[8]);
    }
    if str_eq(name, "Home") {
        return Ok(table[9]);
    }
    if str_eq(name, "End") {
        return Ok(table[10]);
    }
    if str_eq(name, "PageUp") {
        return Ok(table[11]);
    }
    if str_eq(name, "PageDown") {
        return Ok(table[12]);
    }
    if str_eq(name, "Space") {
        return Ok(table[13]);
    }
    let mut msg = owned("unsupported key: ");
    push_str(&mut msg, name);
    Err(msg)
}

} // verus!
