//! The text that the client puts on the page.
//!
//! Numbers come here as the text that stands for them: the library formats
//! no coordinate and no time.

use vstd::prelude::*;
use vstd::string::*;

verus! {

/// The markup of one player: a dot of its colour at its position, with its
/// nickname as the title.
pub open spec fn player_markup_of(left: Seq<char>, top: Seq<char>, color: Seq<char>, nickname: Seq<char>) -> Seq<
    char,
> {
    "<div class=\"player\" style=\"position: absolute; left: "@ + left + "px; top: "@ + top
        + "px; \n                            width: 20px; height: 20px; background: "@ + color
        + "; border-radius: 50%; \n                            border: 2px solid #fff; box-shadow: 0 2px 4px rgba(0,0,0,0.3);\" \n                            title=\""@
        + nickname + "\"></div>"@
}

/// The markup of one line of the chat: the time in brackets, who spoke, and
/// what was said.
pub open spec fn chat_markup_of(time: Seq<char>, nickname: Seq<char>, message: Seq<char>) -> Seq<char> {
    "<div><strong>["@ + time + "] "@ + nickname + ":</strong> "@ + message + "</div>"@
}

/// The greeting for a name.
pub open spec fn greeting_of(name: Seq<char>) -> Seq<char> {
    "Hello, "@ + name + "! This is from Rust via WASM \u{f0}\u{178}\u{a6}\u{20ac}"@
}

/// The markup of one player.
pub fn player_markup(left: &str, top: &str, color: &str, nickname: &str) -> (markup: String)
    ensures
        markup@ == player_markup_of(left@, top@, color@, nickname@),
{
    let mut markup = String::from_str("<div class=\"player\" style=\"position: absolute; left: ");
    markup.append(left);
    markup.append("px; top: ");
    markup.append(top);
    markup.append("px; \n                            width: 20px; height: 20px; background: ");
    markup.append(color);
    markup.append(
        "; border-radius: 50%; \n                            border: 2px solid #fff; box-shadow: 0 2px 4px rgba(0,0,0,0.3);\" \n                            title=\"",
    );
    markup.append(nickname);
    markup.append("\"></div>");
    markup
}

/// The markup of one line of the chat.
pub fn chat_markup(time: &str, nickname: &str, message: &str) -> (markup: String)
    ensures
        markup@ == chat_markup_of(time@, nickname@, message@),
{
    let mut markup = String::from_str("<div><strong>[");
    markup.append(time);
    markup.append("] ");
    markup.append(nickname);
    markup.append(":</strong> ");
    markup.append(message);
    markup.append("</div>");
    markup
}

/// The greeting for a name.
pub fn greet(name: &str) -> (greeting: String)
    ensures
        greeting@ == greeting_of(name@),
{
    let mut greeting = String::from_str("Hello, ");
    greeting.append(name);
    greeting.append("! This is from Rust via WASM \u{f0}\u{178}\u{a6}\u{20ac}");
    greeting
}

/// The sum of two numbers, where it fits.
pub fn add(a: i32, b: i32) -> (sum: i32)
    requires
        i32::MIN <= a + b <= i32::MAX,
    ensures
        sum == a + b,
{
    a + b
}

/// The message that the module shows when it is asked for one.
pub fn get_message() -> (message: String)
    ensures
        message@ == "Hello from Rust and WebAssembly! \u{f0}\u{178}\u{161}\u{20ac}"@,
{
    String::from_str("Hello from Rust and WebAssembly! \u{f0}\u{178}\u{161}\u{20ac}")
}

} // verus!
