use vstd::prelude::*;
use vstd::string::StringExecFns;
use colored::Colorize;

verus! {

/// Whether `inner` stands embedded in `whole` unchanged, with some prefix
/// before it and some suffix after it. A styled terminal rendering keeps the
/// text itself and only surrounds it.
pub open spec fn embeds(whole: Seq<char>, inner: Seq<char>) -> bool {
    exists|p: Seq<char>, q: Seq<char>| whole == p + inner + q
}

/// Texts free of the terminal escape character; styling such a text only
/// wraps it, never rewrites it.
pub open spec fn no_escape_char(s: Seq<char>) -> bool {
    forall|i: int| 0 <= i < s.len() ==> s[i] != '\u{1b}'
}

/// Relies on colored's Colorize::green and ColoredString's Display: the
/// rendering is the input between an optional style prefix and a reset
/// suffix, as long as the input carries no escape sequence of its own.
#[verifier::external_body]
fn style_content(s: &str) -> (r: String)
    ensures
        no_escape_char(s@) ==> embeds(r@, s@),
{
    format!("{}", s.green())
}

/// Relies on colored's Colorize::blue and bold, as `style_content` does on
/// green.
#[verifier::external_body]
fn style_author(s: &str) -> (r: String)
    ensures
        no_escape_char(s@) ==> embeds(r@, s@),
{
    format!("{}", s.blue().bold())
}

/// Relies on colored's Colorize::purple and italic, as `style_content` does
/// on green.
#[verifier::external_body]
fn style_channel(s: &str) -> (r: String)
    ensures
        no_escape_char(s@) ==> embeds(r@, s@),
{
    format!("{}", s.purple().italic())
}

/// Relies on colored's Colorize::yellow and italic, as `style_content` does
/// on green.
#[verifier::external_body]
fn style_guild(s: &str) -> (r: String)
    ensures
        no_escape_char(s@) ==> embeds(r@, s@),
{
    format!("{}", s.yellow().italic())
}

/// The log line for a message whose server and channel are known: the styled
/// names in brackets, then the styled author and content.
pub open spec fn guild_message_shape(
    r: Seq<char>,
    guild: Seq<char>,
    channel: Seq<char>,
    author: Seq<char>,
    content: Seq<char>,
) -> bool {
    exists|gs: Seq<char>, cs: Seq<char>, au: Seq<char>, ms: Seq<char>|
        embeds(gs, guild) && embeds(cs, channel) && embeds(au, author) && embeds(ms, content)
            && r == "["@ + gs + " | Channel "@ + cs + "]\n "@ + au + ": "@ + ms
}

/// The log line for a direct message: no server or channel to name.
pub open spec fn dm_message_shape(r: Seq<char>, author: Seq<char>, content: Seq<char>) -> bool {
    exists|au: Seq<char>, ms: Seq<char>|
        embeds(au, author) && embeds(ms, content) && r == "[DM]\n "@ + au + ": "@ + ms
}

/// Renders one chat message for the log: where the server and channel are
/// known they head the line, a direct message is marked as one, and the
/// author and content close it, each piece styled for the terminal but kept
/// intact inside its styling.
pub fn format_message(
    guild_result: Result<(String, String), String>,
    msg_content: &str,
    author_name: &str,
) -> (r: String)
    ensures
        match guild_result {
            Ok(g) => no_escape_char(g.0@) && no_escape_char(g.1@) && no_escape_char(msg_content@)
                && no_escape_char(author_name@) ==> guild_message_shape(
                r@,
                g.0@,
                g.1@,
                author_name@,
                msg_content@,
            ),
            Err(_) => no_escape_char(msg_content@) && no_escape_char(author_name@)
                ==> dm_message_shape(r@, author_name@, msg_content@),
        },
{
    match guild_result {
        Ok(g) => {
            let styled_guild = style_guild(g.0.as_str());
            let styled_channel = style_channel(g.1.as_str());
            let styled_author = style_author(author_name);
            let styled_content = style_content(msg_content);
            let mut r = String::from_str("[");
            r.append(styled_guild.as_str());
            r.append(" | Channel ");
            r.append(styled_channel.as_str());
            r.append("]\n ");
            r.append(styled_author.as_str());
            r.append(": ");
            r.append(styled_content.as_str());
            proof {
                assert(r@ =~= "["@ + styled_guild@ + " | Channel "@ + styled_channel@ + "]\n "@
                    + styled_author@ + ": "@ + styled_content@);
            }
            r
        },
        Err(_) => {
            let styled_author = style_author(author_name);
            let styled_content = style_content(msg_content);
            let mut r = String::from_str("[DM]\n ");
            r.append(styled_author.as_str());
            r.append(": ");
            r.append(styled_content.as_str());
            proof {
                assert(r@ =~= "[DM]\n "@ + styled_author@ + ": "@ + styled_content@);
            }
            r
        },
    }
}

} // verus!
