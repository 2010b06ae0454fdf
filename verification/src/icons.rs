//! The icons, by their code points in the icon font.

use vstd::prelude::*;

verus! {

pub const AUTH_FAILED: char = '\u{e99a}';

pub const DISCONNECTED: char = '\u{f239}';

pub const CONNECTED: char = '\u{e157}';

pub const CONNECTION_FAILED: char = '\u{e1cd}';

pub const EXECUTING: char = '\u{ef64}';

pub const SUCCESSFUL: char = '\u{e877}';

pub const EXEC_ERR: char = '\u{e000}';

pub const ERROR: char = '\u{e001}';

pub const TIMED_OUT: char = '\u{e51d}';

pub const DELETE: char = '\u{e872}';

pub const REFRESH: char = '\u{e5d5}';

pub const EDIT: char = '\u{e3c9}';

pub const COPY: char = '\u{e14d}';

pub const VIEW_LOG: char = '\u{f1c3}';

pub const VIEW_ERROR_LOG: char = '\u{e87f}';

pub const ADD_ACTION: char = '\u{e146}';

pub const SELECT: char = '\u{f74d}';

pub const DESELECT: char = '\u{ebb6}';

pub const DONE: char = '\u{e876}';

pub const SCREENSHOT: char = '\u{ec08}';

} // verus!
