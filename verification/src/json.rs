use vstd::prelude::*;

use crate::types::channel::ChannelOnftData;

verus! {

/// The lower-case hexadecimal digit for `d`, below sixteen.
pub open spec fn hex_digit(d: u32) -> char {
    if d < 10 { (48 + d) as char } else { (87 + d) as char }
}

/// How character `c` is written inside a JSON string: quotes and backslashes
/// behind a backslash, the control characters with a short escape where JSON has
/// one and as `\u00XX` otherwise, everything else as itself.
pub open spec fn json_char(c: char) -> Seq<char> {
    let n = c as u32;
    if c == '"' {
        seq!['\\', '"']
    } else if c == '\\' {
        seq!['\\', '\\']
    } else if n == 8 {
        seq!['\\', 'b']
    } else if n == 9 {
        seq!['\\', 't']
    } else if n == 10 {
        seq!['\\', 'n']
    } else if n == 12 {
        seq!['\\', 'f']
    } else if n == 13 {
        seq!['\\', 'r']
    } else if n < 32 {
        seq!['\\', 'u', '0', '0', hex_digit(n / 16), hex_digit(n % 16)]
    } else {
        seq![c]
    }
}

/// The characters of `s`, each written as inside a JSON string.
pub open spec fn json_escaped(s: Seq<char>) -> Seq<char>
    decreases s.len(),
{
    if s.len() == 0 {
        Seq::empty()
    } else {
        json_escaped(s.drop_last()) + json_char(s.last())
    }
}

/// `s` as a JSON string: in quotes, escaped.
pub open spec fn json_string(s: Seq<char>) -> Seq<char> {
    seq!['"'] + json_escaped(s) + seq!['"']
}

/// `serde_json::to_string` of a string: `t` in quotes, each character written
/// as `json_char` gives it. On a string it does not fail, as it writes into a
/// `Vec` of bytes.
#[verifier::external_body]
fn json_string_text(t: &str) -> (r: String)
    ensures
        r@ == json_string(t@),
{
    match serde_json::to_string(t) {
        Ok(j) => j,
        Err(_) => String::new(),
    }
}

/// Appends `t`, as a JSON string, to `s`.
pub fn push_json_string(s: &mut String, t: &str)
    ensures
        final(s)@ == old(s)@ + json_string(t@),
{
    let j = json_string_text(t);
    s.append(j.as_str());
}

/// The JSON text of an ONFT's channel data with these fields, in declaration
/// order.
pub open spec fn onft_json(onft_id: Seq<char>, channel_id: Seq<char>, user_name: Seq<char>) -> Seq<char> {
    "{\"onft_id\":"@ + json_string(onft_id) + ",\"channel_id\":"@ + json_string(channel_id) + ",\"user_name\":"@
        + json_string(user_name) + "}"@
}

/// The JSON text of an ONFT's channel data, fields in declaration order.
pub open spec fn onft_data_json(d: ChannelOnftData) -> Seq<char> {
    onft_json(d.onft_id@, d.channel_id@, d.user_name@)
}

impl ChannelOnftData {
    /// The JSON text of this data.
    pub fn to_json(&self) -> (r: String)
        ensures
            r@ == onft_data_json(*self),
    {
        let mut s = String::new();
        s.append("{\"onft_id\":");
        push_json_string(&mut s, self.onft_id.as_str());
        s.append(",\"channel_id\":");
        push_json_string(&mut s, self.channel_id.as_str());
        s.append(",\"user_name\":");
        push_json_string(&mut s, self.user_name.as_str());
        s.append("}");
        assert(s@ =~= onft_data_json(*self));
        s
    }
}

} // verus!
