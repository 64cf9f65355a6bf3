//! Desktop notifications: what is shown, and the scripts that show it
//! through `osascript`. Delivery to the platform is the application's.

use vstd::prelude::*;
use vstd::string::*;
use crate::text::{chars_of, string_from_chars};

verus! {

/// The text with '\' and '"' escaped by a backslash, as an AppleScript
/// string literal needs.
pub open spec fn osascript_escaped(s: Seq<char>) -> Seq<char>
    decreases s.len(),
{
    if s.len() == 0 {
        s
    } else {
        let c = s.last();
        osascript_escaped(s.drop_last()) + if c == '\\' {
            seq!['\\', '\\']
        } else if c == '"' {
            seq!['\\', '"']
        } else {
            seq![c]
        }
    }
}

/// The text with '\' and '"' escaped, line feeds written as "\n" and
/// carriage returns dropped, as a JavaScript string literal needs.
pub open spec fn jxa_escaped(s: Seq<char>) -> Seq<char>
    decreases s.len(),
{
    if s.len() == 0 {
        s
    } else {
        let c = s.last();
        jxa_escaped(s.drop_last()) + if c == '\\' {
            seq!['\\', '\\']
        } else if c == '"' {
            seq!['\\', '"']
        } else if c == '\n' {
            seq!['\\', 'n']
        } else if c == '\r' {
            Seq::<char>::empty()
        } else {
            seq![c]
        }
    }
}

pub fn escape_osascript_text(input: &str) -> (r: String)
    ensures
        r@ == osascript_escaped(input@),
{
    let cs = chars_of(input);
    let mut out: Vec<char> = Vec::new();
    let mut i: usize = 0;
    while i < cs.len()
        invariant
            cs@ == input@,
            i <= cs@.len(),
            out@ == osascript_escaped(cs@.subrange(0, i as int)),
        decreases cs@.len() - i,
    {
        proof {
            assert(cs@.subrange(0, i + 1).drop_last() =~= cs@.subrange(0, i as int));
        }
        let c = cs[i];
        let ghost before = out@;
        if c == '\\' {
            out.push('\\');
            out.push('\\');
            assert(out@ =~= before + seq!['\\', '\\']);
        } else if c == '"' {
            out.push('\\');
            out.push('"');
            assert(out@ =~= before + seq!['\\', '"']);
        } else {
            out.push(c);
            assert(out@ =~= before + seq![c]);
        }
        i = i + 1;
    }
    proof {
        assert(cs@.subrange(0, cs@.len() as int) =~= cs@);
    }
    string_from_chars(&out)
}

pub fn escape_jxa_text(input: &str) -> (r: String)
    ensures
        r@ == jxa_escaped(input@),
{
    let cs = chars_of(input);
    let mut out: Vec<char> = Vec::new();
    let mut i: usize = 0;
    while i < cs.len()
        invariant
            cs@ == input@,
            i <= cs@.len(),
            out@ == jxa_escaped(cs@.subrange(0, i as int)),
        decreases cs@.len() - i,
    {
        proof {
            assert(cs@.subrange(0, i + 1).drop_last() =~= cs@.subrange(0, i as int));
        }
        let c = cs[i];
        let ghost before = out@;
        if c == '\\' {
            out.push('\\');
            out.push('\\');
            assert(out@ =~= before + seq!['\\', '\\']);
        } else if c == '"' {
            out.push('\\');
            out.push('"');
            assert(out@ =~= before + seq!['\\', '"']);
        } else if c == '\n' {
            out.push('\\');
            out.push('n');
            assert(out@ =~= before + seq!['\\', 'n']);
        } else if c == '\r' {
            assert(out@ =~= before + Seq::<char>::empty());
        } else {
            out.push(c);
            assert(out@ =~= before + seq![c]);
        }
        i = i + 1;
    }
    proof {
        assert(cs@.subrange(0, cs@.len() as int) =~= cs@);
    }
    string_from_chars(&out)
}

/// The JavaScript-for-Automation script that shows a notification.
pub open spec fn jxa_script_text(app: Seq<char>, title: Seq<char>, body: Seq<char>) -> Seq<char> {
    "var app = Application.currentApplication();\napp.includeStandardAdditions = true;\napp.displayNotification(\""@
        + jxa_escaped(body) + "\", {withTitle: \""@ + jxa_escaped(title) + "\", subtitle: \""@ + jxa_escaped(app)
        + "\"});"@
}

pub fn jxa_script(app_name: &str, title: &str, body: &str) -> (r: String)
    ensures
        r@ == jxa_script_text(app_name@, title@, body@),
{
    let mut s = String::from_str(
        "var app = Application.currentApplication();\napp.includeStandardAdditions = true;\napp.displayNotification(\"",
    );
    s.append(escape_jxa_text(body).as_str());
    s.append("\", {withTitle: \"");
    s.append(escape_jxa_text(title).as_str());
    s.append("\", subtitle: \"");
    s.append(escape_jxa_text(app_name).as_str());
    s.append("\"});");
    s
}

/// The AppleScript that shows a notification, used when the JavaScript
/// one fails.
pub open spec fn applescript_text(title: Seq<char>, body: Seq<char>) -> Seq<char> {
    "display notification \""@ + osascript_escaped(body) + "\" with title \""@ + osascript_escaped(title) + "\""@
}

pub fn applescript(title: &str, body: &str) -> (r: String)
    ensures
        r@ == applescript_text(title@, body@),
{
    let mut s = String::from_str("display notification \"");
    s.append(escape_osascript_text(body).as_str());
    s.append("\" with title \"");
    s.append(escape_osascript_text(title).as_str());
    s.append("\"");
    s
}

/// A notification to show.
#[derive(Debug, Clone)]
pub struct Notification {
    pub app_name: String,
    pub title: String,
    pub body: String,
}

/// Notifications under one application name.
#[derive(Debug, Clone)]
pub struct SystemNotifier {
    pub app_name: String,
}

impl SystemNotifier {
    pub fn new(app_name: String) -> (r: Self)
        ensures
            r.app_name == app_name,
    {
        SystemNotifier { app_name }
    }

    /// The notification to show for a title and a body.
    pub fn notify(&self, title: String, body: String) -> (r: Notification)
        ensures
            r.app_name == self.app_name,
            r.title == title,
            r.body == body,
    {
        Notification { app_name: self.app_name.clone(), title, body }
    }
}

} // verus!
