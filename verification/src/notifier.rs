//! Desktop notifications: the AppleScript line that shows one.

use vstd::prelude::*;
use crate::text::{chars_of, push_char};

verus! {

/// The text with every `"` preceded by a backslash, so that it can stand
/// inside an AppleScript string.
pub open spec fn escape_quotes(s: Seq<char>) -> Seq<char>
    decreases s.len(),
{
    if s.len() == 0 {
        Seq::empty()
    } else if s.last() == '"' {
        escape_quotes(s.drop_last()) + seq!['\\', '"']
    } else {
        escape_quotes(s.drop_last()).push(s.last())
    }
}

/// The AppleScript that shows a notification with a sound.
pub open spec fn notification_script_spec(title: Seq<char>, message: Seq<char>) -> Seq<char> {
    "display notification \""@ + escape_quotes(message) + "\" with title \""@ + escape_quotes(title)
        + "\" sound name \"Glass\""@
}

fn append_escaped(out: &mut String, s: &str)
    ensures
        final(out)@ == old(out)@ + escape_quotes(s@),
{
    let v = chars_of(s);
    let ghost start = out@;
    let mut i: usize = 0;
    assert(v@.subrange(0, 0) == Seq::<char>::empty());
    assert(start + Seq::<char>::empty() == start);
    while i < v.len()
        invariant
            i <= v@.len(),
            v@ == s@,
            out@ == start + escape_quotes(v@.subrange(0, i as int)),
        decreases v@.len() - i,
    {
        let ghost pre = v@.subrange(0, i + 1);
        assert(pre.drop_last() == v@.subrange(0, i as int));
        assert(pre.last() == v@[i as int]);
        if v[i] == '"' {
            push_char(out, '\\');
            push_char(out, '"');
            assert(out@ =~= start + escape_quotes(pre));
        } else {
            push_char(out, v[i]);
            assert(out@ =~= start + escape_quotes(pre));
        }
        i = i + 1;
    }
    assert(v@.subrange(0, v@.len() as int) == v@);
}

/// The AppleScript line for a notification (see `notification_script_spec`).
pub fn notification_script(title: &str, message: &str) -> (r: String)
    ensures
        r@ == notification_script_spec(title@, message@),
{
    let mut out = "display notification \"".to_owned();
    append_escaped(&mut out, message);
    out.append("\" with title \"");
    append_escaped(&mut out, title);
    out.append("\" sound name \"Glass\"");
    out
}

/// A program to run, with its arguments.
#[derive(Debug)]
pub struct CommandLine {
    /// The program.
    pub program: String,
    /// Its arguments.
    pub args: Vec<String>,
}

/// The command that shows a notification on macOS: `osascript -e <script>`.
/// (Where there is no `osascript`, the caller runs nothing.)
pub fn send_notification(title: &str, message: &str) -> (cmd: CommandLine)
    ensures
        cmd.program@ == "osascript"@,
        cmd.args@.len() == 2,
        cmd.args@[0]@ == "-e"@,
        cmd.args@[1]@ == notification_script_spec(title@, message@),
{
    let mut args: Vec<String> = Vec::new();
    args.push("-e".to_owned());
    args.push(notification_script(title, message));
    CommandLine { program: "osascript".to_owned(), args }
}

} // verus!
