//! Parser for entries of an OpenSSH-style client configuration file:
//! `Host` sections with `HostName`, `Port`, `User` and `IdentityFile`
//! directives, and a `Host *` section supplying defaults.

use vstd::prelude::*;
use vstd::string::*;
use crate::error::AppError;

verus! {

/// One host entry read from an SSH client configuration file.
/// Paths are kept as written in the file; expanding a leading `~`
/// against the user's home directory is the caller's business.
#[derive(Debug)]
pub struct SshConfigEntry {
    /// Host alias.
    pub host: String,
    /// Actual host name.
    pub hostname: Option<String>,
    /// SSH port.
    pub port: Option<u16>,
    /// Username.
    pub user: Option<String>,
    /// Identity file path, as written.
    pub identity_file: Option<String>,
}

/// Mathematical model of an `SshConfigEntry`.
pub struct EntryView {
    pub host: Seq<char>,
    pub hostname: Option<Seq<char>>,
    pub port: Option<u16>,
    pub user: Option<Seq<char>>,
    pub identity_file: Option<Seq<char>>,
}

impl View for SshConfigEntry {
    type V = EntryView;

    open spec fn view(&self) -> EntryView {
        EntryView {
            host: self.host@,
            hostname: match &self.hostname {
                Some(s) => Some(s@),
                None => None,
            },
            port: self.port,
            user: match &self.user {
                Some(s) => Some(s@),
                None => None,
            },
            identity_file: match &self.identity_file {
                Some(s) => Some(s@),
                None => None,
            },
        }
    }
}

impl Clone for SshConfigEntry {
    fn clone(&self) -> (r: Self)
        ensures
            r@ == self@,
    {
        SshConfigEntry {
            host: self.host.clone(),
            hostname: match &self.hostname {
                Some(s) => Some(s.clone()),
                None => None,
            },
            port: self.port,
            user: match &self.user {
                Some(s) => Some(s.clone()),
                None => None,
            },
            identity_file: match &self.identity_file {
                Some(s) => Some(s.clone()),
                None => None,
            },
        }
    }
}

/// The models of a sequence of entries.
pub open spec fn entry_views(v: Seq<SshConfigEntry>) -> Seq<EntryView> {
    v.map_values(|e: SshConfigEntry| e@)
}

/// The directives of one `Host` section that the parser reads:
/// `HostName`, `Port`, `User` and `IdentityFile`, matched without
/// regard to case. A directive repeated in a section keeps its last
/// value; directives the parser does not know are dropped.
#[derive(Debug)]
pub struct SectionVals {
    /// Value of the last `HostName` directive, if any.
    pub hostname: Option<String>,
    /// Value of the last `Port` directive, as written.
    pub port: Option<String>,
    /// Value of the last `User` directive.
    pub user: Option<String>,
    /// Value of the last `IdentityFile` directive.
    pub identity_file: Option<String>,
}

/// Mathematical model of a `SectionVals`.
#[verifier::ext_equal]
pub struct SectionView {
    pub hostname: Option<Seq<char>>,
    pub port: Option<Seq<char>>,
    pub user: Option<Seq<char>>,
    pub identity_file: Option<Seq<char>>,
}

impl View for SectionVals {
    type V = SectionView;

    open spec fn view(&self) -> SectionView {
        SectionView {
            hostname: opt_str_view(&self.hostname),
            port: opt_str_view(&self.port),
            user: opt_str_view(&self.user),
            identity_file: opt_str_view(&self.identity_file),
        }
    }
}

/// The model of an optional string.
pub open spec fn opt_str_view(o: &Option<String>) -> Option<Seq<char>> {
    match o {
        Some(s) => Some(s@),
        None => None,
    }
}

/// A section with no directives seen yet.
pub open spec fn empty_section() -> SectionView {
    SectionView { hostname: None, port: None, user: None, identity_file: None }
}

/// A section after one directive: the matching slot takes the value,
/// any other directive changes nothing.
pub open spec fn upd_section(s: SectionView, key: Seq<char>, value: Seq<char>) -> SectionView {
    if crate::text::seq_ieq(key, "hostname"@) {
        SectionView { hostname: Some(value), port: s.port, user: s.user, identity_file: s.identity_file }
    } else if crate::text::seq_ieq(key, "port"@) {
        SectionView { hostname: s.hostname, port: Some(value), user: s.user, identity_file: s.identity_file }
    } else if crate::text::seq_ieq(key, "user"@) {
        SectionView { hostname: s.hostname, port: s.port, user: Some(value), identity_file: s.identity_file }
    } else if crate::text::seq_ieq(key, "identityfile"@) {
        SectionView { hostname: s.hostname, port: s.port, user: s.user, identity_file: Some(value) }
    } else {
        s
    }
}

impl SectionVals {
    /// A fresh, empty section.
    pub fn new() -> (r: Self)
        ensures
            r@ == empty_section(),
    {
        SectionVals { hostname: None, port: None, user: None, identity_file: None }
    }

    /// Records one directive in the section.
    pub fn apply(&mut self, key: &str, value: String)
        ensures
            final(self)@ == upd_section(old(self)@, key@, value@),
    {
        if crate::text::str_eq_ignore_case(key, "hostname") {
            self.hostname = Some(value);
        } else if crate::text::str_eq_ignore_case(key, "port") {
            self.port = Some(value);
        } else if crate::text::str_eq_ignore_case(key, "user") {
            self.user = Some(value);
        } else if crate::text::str_eq_ignore_case(key, "identityfile") {
            self.identity_file = Some(value);
        }
    }
}

/// Default values taken from a `Host *` section.
#[derive(Debug)]
pub struct SshConfigDefaults {
    /// Default SSH port.
    pub port: Option<u16>,
    /// Default username.
    pub user: Option<String>,
    /// Default identity file path.
    pub identity_file: Option<String>,
}

/// Mathematical model of `SshConfigDefaults`.
#[verifier::ext_equal]
pub struct DefaultsView {
    pub port: Option<u16>,
    pub user: Option<Seq<char>>,
    pub identity_file: Option<Seq<char>>,
}

impl View for SshConfigDefaults {
    type V = DefaultsView;

    open spec fn view(&self) -> DefaultsView {
        DefaultsView {
            port: self.port,
            user: opt_str_view(&self.user),
            identity_file: opt_str_view(&self.identity_file),
        }
    }
}

/// No defaults: what holds before any `Host *` section was seen.
pub open spec fn empty_defaults() -> DefaultsView {
    DefaultsView { port: None, user: None, identity_file: None }
}

/// The port a written value contributes: the number when it parses
/// as a `u16`, nothing otherwise.
pub open spec fn spec_port_value(s: Seq<char>) -> Option<u16> {
    if crate::text::is_dec_string(s) && crate::text::dec_val(crate::text::num_body(s))
        <= u16::MAX {
        Some((crate::text::dec_val(crate::text::num_body(s)) as u16))
    } else {
        None
    }
}

/// The defaults a `Host *` section yields: its port when it parses,
/// its user and identity file as written.
pub open spec fn defaults_of_section(s: SectionView) -> DefaultsView {
    DefaultsView {
        port: match s.port {
            Some(p) => spec_port_value(p),
            None => None,
        },
        user: s.user,
        identity_file: s.identity_file,
    }
}

/// The entry a named section yields, with defaults applied: nothing
/// without a `HostName`; the port falls back to the default when
/// absent or unparseable; user and identity file fall back when
/// absent.
pub open spec fn entry_of_section(host: Seq<char>, s: SectionView, d: DefaultsView) -> Option<
    EntryView,
> {
    match s.hostname {
        None => None,
        Some(hn) => Some(
            EntryView {
                host: host,
                hostname: Some(hn),
                port: match s.port {
                    Some(p) => match spec_port_value(p) {
                        Some(v) => Some(v),
                        None => d.port,
                    },
                    None => d.port,
                },
                user: match s.user {
                    Some(u) => Some(u),
                    None => d.user,
                },
                identity_file: match s.identity_file {
                    Some(f) => Some(f),
                    None => d.identity_file,
                },
            },
        ),
    }
}

/// Extracts the default values of a `Host *` section.
pub fn extract_defaults(section: &SectionVals) -> (r: SshConfigDefaults)
    ensures
        r@ == defaults_of_section(section@),
{
    let port: Option<u16> = match &section.port {
        Some(p) => crate::text::parse_u16(p.as_str()),
        None => None,
    };
    let user: Option<String> = match &section.user {
        Some(u) => Some(u.clone()),
        None => None,
    };
    let identity_file: Option<String> = match &section.identity_file {
        Some(f) => Some(f.clone()),
        None => None,
    };
    SshConfigDefaults { port, user, identity_file }
}

/// Builds the entry of a named `Host` section, applying defaults.
pub fn build_entry(host: &str, section: &SectionVals, defaults: &SshConfigDefaults) -> (r: Option<
    SshConfigEntry,
>)
    ensures
        match r {
            Some(e) => entry_of_section(host@, section@, defaults@) == Some(e@),
            None => entry_of_section(host@, section@, defaults@) is None,
        },
{
    let hostname = match &section.hostname {
        Some(hn) => hn.clone(),
        None => {
            return None;
        },
    };
    let port: Option<u16> = match &section.port {
        Some(p) => match crate::text::parse_u16(p.as_str()) {
            Some(v) => Some(v),
            None => defaults.port,
        },
        None => defaults.port,
    };
    let user: Option<String> = match &section.user {
        Some(u) => Some(u.clone()),
        None => match &defaults.user {
            Some(u) => Some(u.clone()),
            None => None,
        },
    };
    let identity_file: Option<String> = match &section.identity_file {
        Some(f) => Some(f.clone()),
        None => match &defaults.identity_file {
            Some(f) => Some(f.clone()),
            None => None,
        },
    };
    let e = SshConfigEntry {
        host: String::from_str(host),
        hostname: Some(hostname),
        port,
        user,
        identity_file,
    };
    proof {
        assert(entry_of_section(host@, section@, defaults@) == Some(e@));
    }
    Some(e)
}

/// Splits a directive line into its keyword and its value: the first
/// whitespace token and the remaining tokens joined by single
/// spaces. Lines with fewer than two tokens carry no directive.
pub fn parse_directive(line: &str) -> (r: Option<(String, String)>)
    ensures
        r is Some <==> crate::text::spec_tokens(line@).len() >= 2,
        r matches Some(kv) ==> kv.0@ == crate::text::spec_tokens(line@)[0],
        r matches Some(kv) ==> kv.1@ == crate::text::join_space(
            crate::text::spec_tokens(line@).skip(1),
        ),
{
    let toks = crate::text::split_tokens(line);
    if toks.len() >= 2 {
        let key = toks[0].clone();
        let value = crate::text::join_from(&toks, 1);
        proof {
            assert(crate::text::str_views(toks@)[0] == toks@[0]@);
        }
        Some((key, value))
    } else {
        None
    }
}

/// The parser's state between lines: the current section, the
/// defaults gathered from `Host *`, and the entries finished so far.
#[verifier::ext_equal]
pub struct ParseState {
    /// Name of the current `Host` section, if inside one.
    pub cur: Option<Seq<char>>,
    /// True while inside a `Host *` section.
    pub is_default: bool,
    /// Directives of the current section.
    pub section: SectionView,
    /// Defaults taken from a finished `Host *` section.
    pub defaults: DefaultsView,
    /// Entries of the sections finished so far.
    pub entries: Seq<EntryView>,
}

/// The state before any line was read.
pub open spec fn init_state() -> ParseState {
    ParseState {
        cur: None,
        is_default: false,
        section: empty_section(),
        defaults: empty_defaults(),
        entries: Seq::empty(),
    }
}

/// Closes the current section, if any: a named section contributes
/// its entry (when it has one), a `Host *` section replaces the
/// defaults.
pub open spec fn flush_state(st: ParseState) -> ParseState {
    if st.cur is None {
        st
    } else if st.is_default {
        ParseState {
            cur: st.cur,
            is_default: st.is_default,
            section: st.section,
            defaults: defaults_of_section(st.section),
            entries: st.entries,
        }
    } else {
        ParseState {
            cur: st.cur,
            is_default: st.is_default,
            section: st.section,
            defaults: st.defaults,
            entries: match entry_of_section(st.cur->0, st.section, st.defaults) {
                Some(e) => st.entries.push(e),
                None => st.entries,
            },
        }
    }
}

/// True when a trimmed line opens a `Host` section.
pub open spec fn is_host_line(t: Seq<char>) -> bool {
    t.len() >= 5 && t.subrange(0, 5) == "Host "@
}

/// The host name a `Host` line names: its first token after the
/// keyword, or nothing when only whitespace follows.
pub open spec fn host_line_name(t: Seq<char>) -> Seq<char> {
    let toks = crate::text::spec_tokens(t.skip(4));
    if toks.len() > 0 {
        toks[0]
    } else {
        Seq::empty()
    }
}

/// The state after a `Host` line: the previous section is closed and
/// a new one opens — a default section for `*`, a named one for a
/// non-empty name, none for a bare keyword.
pub open spec fn host_line_state(st: ParseState, t: Seq<char>) -> ParseState {
    let host = host_line_name(t);
    if host == "*"@ {
        ParseState {
            cur: Some(host),
            is_default: true,
            section: empty_section(),
            defaults: st.defaults,
            entries: st.entries,
        }
    } else if host.len() > 0 {
        ParseState {
            cur: Some(host),
            is_default: false,
            section: empty_section(),
            defaults: st.defaults,
            entries: st.entries,
        }
    } else {
        ParseState {
            cur: None,
            is_default: false,
            section: empty_section(),
            defaults: st.defaults,
            entries: st.entries,
        }
    }
}

/// The state after reading one line: blank lines and comments change
/// nothing; a `Host` line closes the section and opens another;
/// inside a section, a directive line updates it.
pub open spec fn step_line(st: ParseState, line: Seq<char>) -> ParseState {
    let t = crate::text::trim_spec(line);
    if t.len() == 0 || t[0] == '#' {
        st
    } else if is_host_line(t) {
        host_line_state(flush_state(st), t)
    } else if st.cur is Some {
        let toks = crate::text::spec_tokens(t);
        if toks.len() >= 2 {
            ParseState {
                cur: st.cur,
                is_default: st.is_default,
                section: upd_section(st.section, toks[0], crate::text::join_space(toks.skip(1))),
                defaults: st.defaults,
                entries: st.entries,
            }
        } else {
            st
        }
    } else {
        st
    }
}

/// The state after reading a list of lines in order.
pub open spec fn run_lines(lines: Seq<Seq<char>>) -> ParseState
    decreases lines.len(),
{
    if lines.len() == 0 {
        init_state()
    } else {
        step_line(run_lines(lines.drop_last()), lines.last())
    }
}

/// The entries of a whole configuration text: its lines are read in
/// order, and at the end a named section still open contributes its
/// entry, while an open `Host *` section contributes nothing.
pub open spec fn spec_parse_entries(content: Seq<char>) -> Seq<EntryView> {
    let st = run_lines(crate::text::spec_lines(content));
    if st.cur is Some && !st.is_default {
        match entry_of_section(st.cur->0, st.section, st.defaults) {
            Some(e) => st.entries.push(e),
            None => st.entries,
        }
    } else {
        st.entries
    }
}

/// Parses the text of an SSH client configuration file. Parsing
/// itself never fails — unrecognised lines are skipped — so the
/// result is always the entry list; the error type is for the
/// callers that read the file from disk first.
pub fn parse_ssh_config_content(content: &str) -> (r: Result<Vec<SshConfigEntry>, AppError>)
    ensures
        r is Ok,
        r matches Ok(v) ==> entry_views(v@) == spec_parse_entries(content@),
{
    let lines = crate::text::split_lines(content);
    let ghost lviews = crate::text::spec_lines(content@);
    let mut cur: Option<String> = None;
    let mut is_default: bool = false;
    let mut section = SectionVals::new();
    let mut defaults = SshConfigDefaults { port: None, user: None, identity_file: None };
    let mut entries: Vec<SshConfigEntry> = Vec::new();
    let mut i: usize = 0;
    proof {
        assert(lviews.take(0) =~= Seq::<Seq<char>>::empty());
    }
    while i < lines.len()
        invariant
            0 <= i <= lines@.len(),
            crate::text::str_views(lines@) == lviews,
            opt_str_view(&cur) == run_lines(lviews.take(i as int)).cur,
            is_default == run_lines(lviews.take(i as int)).is_default,
            section@ == run_lines(lviews.take(i as int)).section,
            defaults@ == run_lines(lviews.take(i as int)).defaults,
            entries@.len() == run_lines(lviews.take(i as int)).entries.len(),
            forall|k: int|
                0 <= k < entries@.len() ==> (#[trigger] entries@[k])@ == run_lines(
                    lviews.take(i as int),
                ).entries[k],
        decreases lines@.len() - i,
    {
        let ghost gst = run_lines(lviews.take(i as int));
        proof {
            assert(lviews[i as int] == lines@[i as int]@);
            assert(lviews.take(i + 1).drop_last() =~= lviews.take(i as int));
            assert(lviews.take(i + 1).last() == lviews[i as int]);
            assert(run_lines(lviews.take(i + 1)) == step_line(gst, lviews[i as int]));
        }
        let t = crate::text::trim_str(lines[i].as_str());
        let t_len = t.unicode_len();
        if t_len == 0 || t.get_char(0) == '#' {
            // Blank line or comment: nothing changes.
        } else if crate::text::str_starts_with(t, "Host ") {
            proof {
                reveal_strlit("Host ");
                assert("Host "@.len() == 5);
                assert(is_host_line(t@));
            }
            match &cur {
                Some(h) => {
                    if !is_default {
                        match build_entry(h.as_str(), &section, &defaults) {
                            Some(e) => {
                                proof {
                                    let fst = flush_state(gst);
                                    assert(fst.entries == gst.entries.push(e@));
                                }
                                entries.push(e);
                            },
                            None => {
                                proof {
                                    let fst = flush_state(gst);
                                    assert(fst.entries == gst.entries);
                                }
                            },
                        }
                    } else {
                        defaults = extract_defaults(&section);
                    }
                },
                None => {},
            }
            section = SectionVals::new();
            let rest = t.substring_char(4, t_len);
            proof {
                assert(rest@ =~= t@.skip(4));
            }
            let toks = crate::text::split_tokens(rest);
            let host: String = if toks.len() > 0 {
                proof {
                    assert(crate::text::str_views(toks@)[0] == toks@[0]@);
                }
                toks[0].clone()
            } else {
                String::new()
            };
            proof {
                assert(host@ == host_line_name(t@));
            }
            if crate::text::str_eq(host.as_str(), "*") {
                is_default = true;
                cur = Some(host);
            } else if host.unicode_len() > 0 {
                is_default = false;
                cur = Some(host);
            } else {
                is_default = false;
                cur = None;
            }
        } else {
            let inside = match &cur {
                Some(_) => true,
                None => false,
            };
            if inside {
                match parse_directive(t) {
                    Some((key, value)) => {
                        section.apply(key.as_str(), value);
                    },
                    None => {},
                }
            }
        }
        i = i + 1;
    }
    proof {
        assert(lviews.take(lines@.len() as int) =~= lviews);
    }
    let mut out = entries;
    match &cur {
        Some(h) => {
            if !is_default {
                match build_entry(h.as_str(), &section, &defaults) {
                    Some(e) => {
                        out.push(e);
                    },
                    None => {},
                }
            }
        },
        None => {},
    }
    proof {
        assert forall|k: int|
            0 <= k < out@.len() implies entry_views(out@)[k] == spec_parse_entries(content@)[k]
        by {}
        assert(entry_views(out@) =~= spec_parse_entries(content@));
    }
    Ok(out)
}

} // verus!
