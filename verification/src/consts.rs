//! Fixed values of the Telegram API.
use vstd::prelude::*;

verus! {

/// The base URL of the Telegram Bot API.
pub const BASE_URL: &'static str = "https://api.telegram.org";

} // verus!
