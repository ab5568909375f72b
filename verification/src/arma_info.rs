//! The older form of the call context: the four texts Arma passes with a call,
//! each kept only when it names something.

use vstd::prelude::*;

use crate::text::chars_of;

verus! {

/// A text that names something: `None` for empty text
pub open spec fn named_text(s: Seq<char>) -> Option<Seq<char>> {
    if s.len() == 0 {
        None
    } else {
        Some(s)
    }
}

/// The caller's Steam id: `None` for empty text and for `0`
pub open spec fn steam_id_text(s: Seq<char>) -> Option<Seq<char>> {
    if s.len() == 0 || s == seq!['0'] {
        None
    } else {
        Some(s)
    }
}

/// Information about an extension call: who called, from which file, in which
/// mission and on which server
pub struct ArmaInfo {
    steam_id: Option<String>,
    file_source: Option<String>,
    mission_name: Option<String>,
    server_name: Option<String>,
}

fn text_of(s: &Option<String>) -> (r: Option<&str>)
    ensures
        match (r, s) {
            (Some(a), Some(b)) => a@ == b@,
            (None, None) => true,
            _ => false,
        },
{
    match s {
        Some(t) => Some(t.as_str()),
        None => None,
    }
}

fn keep_named(s: &str) -> (r: Option<String>)
    ensures
        match (r, named_text(s@)) {
            (Some(a), Some(b)) => a@ == b,
            (None, None) => true,
            _ => false,
        },
{
    if s.is_empty() {
        None
    } else {
        Some(String::from_str(s))
    }
}

/// The view of an optional text
pub open spec fn opt_view(s: Option<String>) -> Option<Seq<char>> {
    match s {
        Some(t) => Some(t@),
        None => None,
    }
}

impl ArmaInfo {
    /// The caller's Steam id
    pub closed spec fn spec_steam_id(&self) -> Option<Seq<char>> {
        opt_view(self.steam_id)
    }

    /// The path of the calling script
    pub closed spec fn spec_file_source(&self) -> Option<Seq<char>> {
        opt_view(self.file_source)
    }

    /// The mission's name
    pub closed spec fn spec_mission_name(&self) -> Option<Seq<char>> {
        opt_view(self.mission_name)
    }

    /// The server's name
    pub closed spec fn spec_server_name(&self) -> Option<Seq<char>> {
        opt_view(self.server_name)
    }

    /// Keeps each text that names something: the Steam id unless it is empty
    /// or `0`, the others unless they are empty.
    pub fn new(steam_id: &str, file_source: &str, mission_name: &str, server_name: &str) -> (r:
        Self)
        ensures
            r.spec_steam_id() == steam_id_text(steam_id@),
            r.spec_file_source() == named_text(file_source@),
            r.spec_mission_name() == named_text(mission_name@),
            r.spec_server_name() == named_text(server_name@),
    {
        let c = chars_of(steam_id);
        let steam = if c.len() == 0 || (c.len() == 1 && c[0] == '0') {
            if c.len() == 1 {
                assert(c@ =~= seq!['0']);
            }
            None
        } else {
            assert(c@ != seq!['0']) by {
                if c@ == seq!['0'] {
                    assert(c@[0] == '0');
                }
            }
            Some(String::from_str(steam_id))
        };
        ArmaInfo {
            steam_id: steam,
            file_source: keep_named(file_source),
            mission_name: keep_named(mission_name),
            server_name: keep_named(server_name),
        }
    }

    /// The caller's Steam id, when there is one
    pub fn steam_id(&self) -> (r: Option<&str>)
        ensures
            self.spec_steam_id() == match r {
                Some(a) => Some(a@),
                None => None::<Seq<char>>,
            },
    {
        text_of(&self.steam_id)
    }

    /// The path of the script that called, when there is one
    pub fn file_source(&self) -> (r: Option<&str>)
        ensures
            self.spec_file_source() == match r {
                Some(a) => Some(a@),
                None => None::<Seq<char>>,
            },
    {
        text_of(&self.file_source)
    }

    /// The mission's name, when there is one
    pub fn mission_name(&self) -> (r: Option<&str>)
        ensures
            self.spec_mission_name() == match r {
                Some(a) => Some(a@),
                None => None::<Seq<char>>,
            },
    {
        text_of(&self.mission_name)
    }

    /// The server's name, when there is one
    pub fn server_name(&self) -> (r: Option<&str>)
        ensures
            self.spec_server_name() == match r {
                Some(a) => Some(a@),
                None => None::<Seq<char>>,
            },
    {
        text_of(&self.server_name)
    }
}

impl Default for ArmaInfo {
    fn default() -> (r: Self)
        ensures
            r.spec_steam_id() is None,
            r.spec_file_source() is None,
            r.spec_mission_name() is None,
            r.spec_server_name() is None,
    {
        ArmaInfo { steam_id: None, file_source: None, mission_name: None, server_name: None }
    }
}

} // verus!
