use vstd::prelude::*;
use crate::app::error::DaemonError;
use crate::config::migration::normalized_line;
use crate::text::chars::{chars_of, push_chars, string_of, utf8_text};
use crate::text::format::join;
use crate::text::split::{lines, split_lines, views};

verus! {

/// Loading the initial configuration needs no work of its own: the policy
/// files are read when the state is built.
pub fn load_initial_config() -> (r: Result<(), DaemonError>)
    ensures
        r is Ok,
{
    Ok(())
}

/// Where the daemon finds its files in the module directory.
#[derive(Debug, Clone, PartialEq, Eq)]
pub struct DaemonPaths {
    pub module_dir: String,
    pub app_config: String,
    pub app_label: String,
    pub settings_db: String,
}

fn in_dir(dir: &[char], name: &str) -> (s: String)
    ensures
        s@ == dir@ + "/"@ + name@,
{
    let mut s = String::new();
    push_chars(&mut s, dir);
    s.push('/');
    s.append(name);
    proof {
        reveal_strlit("/");
    }
    s
}

impl DaemonPaths {
    /// The files `appcfg.txt`, `applabel.txt` and `settings.db` in the
    /// module directory.
    pub fn from_module_dir(module_dir: String) -> (p: Self)
        ensures
            p.module_dir == module_dir,
            p.app_config@ == module_dir@ + "/"@ + "appcfg.txt"@,
            p.app_label@ == module_dir@ + "/"@ + "applabel.txt"@,
            p.settings_db@ == module_dir@ + "/"@ + "settings.db"@,
    {
        let dir = chars_of(module_dir.as_str());
        DaemonPaths {
            app_config: in_dir(dir.as_slice(), "appcfg.txt"),
            app_label: in_dir(dir.as_slice(), "applabel.txt"),
            settings_db: in_dir(dir.as_slice(), "settings.db"),
            module_dir,
        }
    }
}

/// The policy files as loaded; a missing file is `None`.
#[derive(Debug, Clone, PartialEq, Eq)]
pub struct LoadedPolicyFiles {
    pub app_config: Option<String>,
    pub app_label: Option<String>,
    pub settings: Option<Vec<u8>>,
}

impl LoadedPolicyFiles {
    /// Whether any policy file was found.
    pub fn is_available(&self) -> (r: bool)
        ensures
            r == (self.app_config is Some || self.app_label is Some || self.settings is Some),
    {
        self.app_config.is_some() || self.app_label.is_some() || self.settings.is_some()
    }
}

/// The lines of the manager's app configuration, joined by newlines, in
/// UTF-8.
pub fn serialize_manager_app_config(lines: &[String]) -> (bytes: Vec<u8>)
    ensures
        bytes@ == vstd::utf8::encode_utf8(
            join(lines@.map_values(|l: String| l@), "\n"@),
        ),
{
    let ghost f = |l: String| l@;
    let mut text = String::new();
    let mut i: usize = 0;
    while i < lines.len()
        invariant
            i <= lines@.len(),
            f == (|l: String| l@),
            text@ == join(lines@.take(i as int).map_values(f), "\n"@),
        decreases lines@.len() - i,
    {
        let ghost before = text@;
        if i > 0 {
            text.push('\n');
        }
        let cs = chars_of(lines[i].as_str());
        push_chars(&mut text, cs.as_slice());
        proof {
            let parts = lines@.take(i + 1).map_values(f);
            assert(parts.drop_last() == lines@.take(i as int).map_values(f));
            if i == 0 {
                assert(join(lines@.take(0).map_values(f), "\n"@) == Seq::<char>::empty());
            } else {
                reveal_strlit("\n");
                assert(text@ == before + "\n"@ + lines@[i as int]@);
            }
        }
        i = i + 1;
    }
    assert(lines@.take(lines@.len() as int) == lines@);
    vstd::slice::slice_to_vec(text.as_str().as_bytes())
}

/// The normalized lines, in order, skipping blank lines and comments.
pub open spec fn normalized_lines(ls: Seq<Seq<char>>) -> Seq<Seq<char>>
    decreases ls.len(),
{
    if ls.len() == 0 {
        Seq::empty()
    } else {
        let rest = normalized_lines(ls.drop_last());
        match normalized_line(ls.last()) {
            Some(t) => rest.push(t),
            None => rest,
        }
    }
}

/// Reads the manager's app configuration: UTF-8 text whose non-blank,
/// non-comment lines are kept, trimmed. Text that is not UTF-8 is a
/// configuration error.
pub fn parse_manager_app_config(payload: &[u8]) -> (r: Result<Vec<String>, DaemonError>)
    ensures
        !vstd::utf8::valid_utf8(payload@) ==> (r matches Err(DaemonError::Config(m))
            && "app config is not utf-8: "@.is_prefix_of(m@)),
        vstd::utf8::valid_utf8(payload@) ==> (r matches Ok(ls) && ls@.map_values(|l: String| l@)
            == normalized_lines(lines(vstd::utf8::decode_utf8(payload@)))),
{
    let text = match utf8_text(payload) {
        Ok(text) => text,
        Err(error) => {
            let mut message = "app config is not utf-8: ".to_owned();
            let cs = chars_of(error.as_str());
            push_chars(&mut message, cs.as_slice());
            assert(message@.take("app config is not utf-8: "@.len() as int)
                == "app config is not utf-8: "@);
            return Err(DaemonError::Config(message));
        },
    };
    let cs = chars_of(text.as_str());
    let ls = split_lines(cs.as_slice());
    let ghost lv = views(ls@);
    let ghost f = |l: String| l@;
    let mut out: Vec<String> = Vec::new();
    let mut i: usize = 0;
    while i < ls.len()
        invariant
            i <= ls@.len(),
            f == (|l: String| l@),
            lv == views(ls@),
            lv == lines(text@),
            out@.map_values(f) == normalized_lines(lv.take(i as int)),
        decreases ls@.len() - i,
    {
        proof {
            assert(lv.take(i + 1).drop_last() == lv.take(i as int));
            assert(lv.take(i + 1).last() == ls@[i as int]@);
        }
        let t = crate::text::scan::trimmed(ls[i].as_slice());
        if t.len() > 0 && t[0] != '#' {
            let ghost before = out@;
            out.push(string_of(t.as_slice()));
            assert(out@.map_values(f) == before.map_values(f).push(t@));
        }
        i = i + 1;
    }
    assert(lv.take(ls@.len() as int) == lv);
    Ok(out)
}

} // verus!
