use vstd::prelude::*;

verus! {

/// The snake's self-description, answered on the root route.
pub struct ConfigResponse {
    /// Version of the game API implemented; only "1" is valid.
    pub api_version: String,
    /// Username of the author.
    pub author: String,
    /// Display color, `#` and six hex digits.
    pub color: String,
    /// Displayed head.
    pub head: String,
    /// Displayed tail.
    pub tail: String,
    /// Version or tag of the snake.
    pub version: String,
}

/// The configuration this snake announces.
pub fn index() -> (r: ConfigResponse)
    ensures
        r.api_version@ == "1"@,
        r.author@ == "author"@,
        r.color@ == "#ffffff"@,
        r.head@ == "default"@,
        r.tail@ == "default"@,
        r.version@ == "0.0.1"@,
{
    ConfigResponse {
        api_version: "1".to_owned(),
        author: "author".to_owned(),
        color: "#ffffff".to_owned(),
        head: "default".to_owned(),
        tail: "default".to_owned(),
        version: "0.0.1".to_owned(),
    }
}

} // verus!
