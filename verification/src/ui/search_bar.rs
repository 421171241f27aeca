//! The terminal search bar: its query, options and the match being shown.
use vstd::prelude::*;

use crate::terminal::keys::{KeyModifiers, Keystroke};
use crate::text::{chars_of, str_eq, string_of};

verus! {

/// What the search bar tells its owner after a key.
#[derive(Debug)]
pub enum SearchBarEvent {
    /// The bar is to be closed.
    Close,
    /// The query, or how it is matched, changed; the new query.
    QueryChanged(String),
    /// The next match is shown.
    FindNext,
    /// The previous match is shown.
    FindPrev,
}

/// What a key does in the search field.
pub enum SearchKey {
    Close,
    FindNext,
    FindPrev,
    Erase,
    /// Ctrl/Cmd-F while the bar is open: nothing.
    Reopen,
    /// A key whose name is one plain character: that character is typed.
    TypeKey,
    /// The space bar: a space is typed.
    TypeSpace,
    Ignore,
}

/// A key name of one byte, that is one ASCII character.
pub open spec fn one_byte_key(k: Seq<char>) -> bool {
    k.len() == 1 && (k[0] as u32) < 128
}

/// How the search field reads a key with the modifiers held, first rule first.
pub open spec fn search_key(k: Seq<char>, m: KeyModifiers) -> SearchKey {
    if k == "escape"@ {
        SearchKey::Close
    } else if k == "enter"@ {
        if m.shift { SearchKey::FindPrev } else { SearchKey::FindNext }
    } else if k == "backspace"@ {
        SearchKey::Erase
    } else if k == "f"@ && (m.platform || m.control) {
        SearchKey::Reopen
    } else if one_byte_key(k) && !m.control && !m.platform && !m.alt {
        SearchKey::TypeKey
    } else if k == "space"@ {
        SearchKey::TypeSpace
    } else {
        SearchKey::Ignore
    }
}

/// Whether a key name is one byte long.
fn is_one_byte_key(k: &str) -> (b: bool)
    ensures
        b == one_byte_key(k@),
{
    let cs = chars_of(k);
    cs.len() == 1 && (cs[0] as u32) < 128
}

/// Reads a key as the search field does.
pub fn classify_search_key(ks: &Keystroke) -> (r: SearchKey)
    ensures
        r == search_key(ks.key@, ks.modifiers),
{
    let k = ks.key.as_str();
    let m = ks.modifiers;
    if str_eq(k, "escape") {
        SearchKey::Close
    } else if str_eq(k, "enter") {
        if m.shift { SearchKey::FindPrev } else { SearchKey::FindNext }
    } else if str_eq(k, "backspace") {
        SearchKey::Erase
    } else if str_eq(k, "f") && (m.platform || m.control) {
        SearchKey::Reopen
    } else if is_one_byte_key(k) && !m.control && !m.platform && !m.alt {
        SearchKey::TypeKey
    } else if str_eq(k, "space") {
        SearchKey::TypeSpace
    } else {
        SearchKey::Ignore
    }
}

/// The search bar's state.
pub struct SearchBar {
    query: String,
    current_match: usize,
    total_matches: usize,
    case_sensitive: bool,
}

impl SearchBar {
    /// The query.
    pub closed spec fn spec_query(&self) -> Seq<char> {
        self.query@
    }

    /// The match shown, counted from 0.
    pub closed spec fn spec_current(&self) -> usize {
        self.current_match
    }

    /// How many matches there are.
    pub closed spec fn spec_total(&self) -> usize {
        self.total_matches
    }

    /// Whether the search is case sensitive.
    pub closed spec fn spec_case_sensitive(&self) -> bool {
        self.case_sensitive
    }

    /// The match shown is one of the matches, or the first when there are none.
    pub open spec fn well_formed(&self) -> bool {
        self.spec_total() == 0 ==> self.spec_current() == 0
            && (self.spec_total() > 0 ==> self.spec_current() < self.spec_total())
    }

    /// An empty, case-insensitive search without matches.
    pub fn new() -> (b: Self)
        ensures
            b.spec_query().len() == 0,
            b.spec_current() == 0,
            b.spec_total() == 0,
            !b.spec_case_sensitive(),
    {
        SearchBar { query: String::new(), current_match: 0, total_matches: 0, case_sensitive: false }
    }

    /// The query.
    pub fn query(&self) -> (q: &str)
        ensures
            q@ == self.spec_query(),
    {
        self.query.as_str()
    }

    /// Whether the search is case sensitive.
    pub fn case_sensitive(&self) -> (b: bool)
        ensures
            b == self.spec_case_sensitive(),
    {
        self.case_sensitive
    }

    /// Records how many matches there are and goes back to the first match.
    pub fn set_match_count(&mut self, count: usize)
        ensures
            final(self).spec_total() == count,
            final(self).spec_current() == 0,
            final(self).spec_query() == old(self).spec_query(),
            final(self).spec_case_sensitive() == old(self).spec_case_sensitive(),
    {
        self.total_matches = count;
        self.current_match = 0;
    }

    /// The match shown.
    pub fn current_match_index(&self) -> (i: usize)
        ensures
            i == self.spec_current(),
    {
        self.current_match
    }

    /// Replaces the query; the first match is shown.
    pub fn set_query(&mut self, query: String)
        ensures
            final(self).spec_query() == query@,
            final(self).spec_current() == 0,
            final(self).spec_total() == old(self).spec_total(),
            final(self).spec_case_sensitive() == old(self).spec_case_sensitive(),
    {
        self.query = query;
        self.current_match = 0;
    }

    /// Types text at the end of the query (the cursor stays after what was typed); the
    /// first match is shown.
    pub fn handle_input(&mut self, text: &str)
        ensures
            final(self).spec_query() == old(self).spec_query() + text@,
            final(self).spec_current() == 0,
            final(self).spec_total() == old(self).spec_total(),
            final(self).spec_case_sensitive() == old(self).spec_case_sensitive(),
    {
        self.query.append(text);
        self.current_match = 0;
    }

    /// Deletes the character before the cursor, at the end of the query, and shows the
    /// first match; with an empty query nothing changes. Returns whether the query changed.
    pub fn handle_backspace(&mut self) -> (changed: bool)
        ensures
            changed == (old(self).spec_query().len() > 0),
            changed ==> final(self).spec_query() == old(self).spec_query().drop_last()
                && final(self).spec_current() == 0,
            !changed ==> final(self).spec_query() == old(self).spec_query() && final(self).spec_current()
                == old(self).spec_current(),
            final(self).spec_total() == old(self).spec_total(),
            final(self).spec_case_sensitive() == old(self).spec_case_sensitive(),
    {
        let chars = chars_of(self.query.as_str());
        if chars.len() == 0 {
            return false;
        }
        let kept = string_of(&chars.as_slice()[0..chars.len() - 1]);
        assert(chars@.subrange(0, chars@.len() - 1) =~= old(self).spec_query().drop_last());
        self.query = kept;
        self.current_match = 0;
        true
    }

    /// Shows the next match, wrapping around; without matches nothing changes.
    pub fn find_next(&mut self)
        ensures
            old(self).spec_total() > 0 ==> final(self).spec_current() == (old(self).spec_current() + 1) % (old(self).spec_total() as int),
            old(self).spec_total() == 0 ==> final(self).spec_current() == old(self).spec_current(),
            final(self).spec_total() == old(self).spec_total(),
            final(self).spec_query() == old(self).spec_query(),
            final(self).spec_case_sensitive() == old(self).spec_case_sensitive(),
    {
        if self.total_matches > 0 {
            let c = self.current_match;
            let t = self.total_matches;
            assert(((c % t) + 1) % (t as int) == (c + 1) % (t as int)) by (nonlinear_arith)
                requires
                    t > 0;
            self.current_match = ((c % t) + 1) % t;
        }
    }

    /// Shows the previous match, wrapping around; without matches nothing changes.
    pub fn find_prev(&mut self)
        ensures
            old(self).spec_total() > 0 ==> final(self).spec_current() == if old(self).spec_current() == 0 {
                (old(self).spec_total() - 1) as usize
            } else {
                (old(self).spec_current() - 1) as usize
            },
            old(self).spec_total() == 0 ==> final(self).spec_current() == old(self).spec_current(),
            final(self).spec_total() == old(self).spec_total(),
            final(self).spec_query() == old(self).spec_query(),
            final(self).spec_case_sensitive() == old(self).spec_case_sensitive(),
    {
        if self.total_matches > 0 {
            if self.current_match == 0 {
                self.current_match = self.total_matches - 1;
            } else {
                self.current_match -= 1;
            }
        }
    }

    /// Switches case sensitivity; the first match is shown.
    pub fn toggle_case_sensitive(&mut self)
        ensures
            final(self).spec_case_sensitive() == !old(self).spec_case_sensitive(),
            final(self).spec_current() == 0,
            final(self).spec_total() == old(self).spec_total(),
            final(self).spec_query() == old(self).spec_query(),
    {
        self.case_sensitive = !self.case_sensitive;
        self.current_match = 0;
    }

    /// Handles a key typed in the search field and returns the event it raises, if any:
    /// escape closes; enter shows the next match and shift-enter the previous one (an
    /// event only where there are matches); backspace deletes the last character (an
    /// event only where there was one); a one-character key without control, platform
    /// or alt, and the space bar, type into the query.
    pub fn handle_key(&mut self, ks: &Keystroke) -> (ev: Option<SearchBarEvent>)
        ensures
            final(self).spec_total() == old(self).spec_total(),
            match search_key(ks.key@, ks.modifiers) {
                SearchKey::Close => ev == Some(SearchBarEvent::Close) && *final(self) == *old(self),
                SearchKey::FindNext => {
                    &&& final(self).spec_query() == old(self).spec_query()
                    &&& final(self).spec_case_sensitive() == old(self).spec_case_sensitive()
                    &&& if old(self).spec_total() > 0 {
                        ev == Some(SearchBarEvent::FindNext) && final(self).spec_current()
                            == (old(self).spec_current() + 1) % (old(self).spec_total() as int)
                    } else {
                        ev is None && final(self).spec_current() == old(self).spec_current()
                    }
                },
                SearchKey::FindPrev => {
                    &&& final(self).spec_query() == old(self).spec_query()
                    &&& final(self).spec_case_sensitive() == old(self).spec_case_sensitive()
                    &&& if old(self).spec_total() > 0 {
                        &&& ev == Some(SearchBarEvent::FindPrev)
                        &&& final(self).spec_current() == if old(self).spec_current() == 0 {
                            old(self).spec_total() - 1
                        } else {
                            old(self).spec_current() - 1
                        }
                    } else {
                        ev is None && final(self).spec_current() == old(self).spec_current()
                    }
                },
                SearchKey::Erase => {
                    &&& final(self).spec_case_sensitive() == old(self).spec_case_sensitive()
                    &&& if old(self).spec_query().len() > 0 {
                        &&& final(self).spec_query() == old(self).spec_query().drop_last()
                        &&& final(self).spec_current() == 0
                        &&& ev matches Some(SearchBarEvent::QueryChanged(q)) && q@ == final(self).spec_query()
                    } else {
                        &&& ev is None
                        &&& final(self).spec_query() == old(self).spec_query()
                        &&& final(self).spec_current() == old(self).spec_current()
                    }
                },
                SearchKey::TypeKey => {
                    &&& final(self).spec_query() == old(self).spec_query() + ks.key@
                    &&& final(self).spec_current() == 0
                    &&& final(self).spec_case_sensitive() == old(self).spec_case_sensitive()
                    &&& ev matches Some(SearchBarEvent::QueryChanged(q)) && q@ == final(self).spec_query()
                },
                SearchKey::TypeSpace => {
                    &&& final(self).spec_query() == old(self).spec_query().push(' ')
                    &&& final(self).spec_current() == 0
                    &&& final(self).spec_case_sensitive() == old(self).spec_case_sensitive()
                    &&& ev matches Some(SearchBarEvent::QueryChanged(q)) && q@ == final(self).spec_query()
                },
                SearchKey::Reopen | SearchKey::Ignore => ev is None && *final(self) == *old(self),
            },
    {
        match classify_search_key(ks) {
            SearchKey::Close => Some(SearchBarEvent::Close),
            SearchKey::FindNext => {
                let had = self.total_matches > 0;
                self.find_next();
                if had { Some(SearchBarEvent::FindNext) } else { None }
            },
            SearchKey::FindPrev => {
                let had = self.total_matches > 0;
                self.find_prev();
                if had { Some(SearchBarEvent::FindPrev) } else { None }
            },
            SearchKey::Erase => {
                if self.handle_backspace() {
                    Some(SearchBarEvent::QueryChanged(self.query.clone()))
                } else {
                    None
                }
            },
            SearchKey::TypeKey => {
                self.handle_input(ks.key.as_str());
                Some(SearchBarEvent::QueryChanged(self.query.clone()))
            },
            SearchKey::TypeSpace => {
                proof {
                    reveal_strlit(" ");
                }
                self.handle_input(" ");
                assert(self.spec_query() =~= old(self).spec_query().push(' '));
                Some(SearchBarEvent::QueryChanged(self.query.clone()))
            },
            SearchKey::Reopen | SearchKey::Ignore => None,
        }
    }
}

} // verus!
