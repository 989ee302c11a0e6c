//! Control plane: the line-oriented protocol that lets separate
//! invocations observe and stop the running daemon, and the run-file
//! paths beside the configuration file. The wire format is exact: a
//! request is one line, `stop` (case-insensitive, trimmed) triggers
//! shutdown and gets `ok`, anything else gets the three-line status
//! record.

use vstd::prelude::*;
use vstd::string::*;
use crate::service::{ServiceState, ServiceStatus};
use crate::text::{
    dec_seq, dec_string_u64, dec_val, is_dec_string, last_where, lemma_dec_seq_digits,
    lemma_dec_val_dec_seq, lemma_last_where_at, lemma_last_where_none, lemma_lines_split,
    lemma_lines_whole, num_body, parse_u64, is_digit_char, seq_ieq, spec_lines, split_lines, str_eq,
    str_eq_ignore_case, str_starts_with, str_views, trim_spec, trim_str,
};

verus! {

/// The name under which a state appears in the status record.
pub open spec fn spec_state_name(s: ServiceState) -> Seq<char> {
    match s {
        ServiceState::Stopped => "Stopped"@,
        ServiceState::Starting => "Starting"@,
        ServiceState::Running => "Running"@,
        ServiceState::Stopping => "Stopping"@,
        ServiceState::Error(_) => "Error"@,
    }
}

/// The three-line status record: the state name quoted, then the two
/// channel counts, each line in `key = value` form.
pub open spec fn spec_status_record(state: ServiceState, active: nat, total: nat) -> Seq<char> {
    "state = \""@ + spec_state_name(state) + "\"\nactive_channels = "@ + dec_seq(active)
        + "\ntotal_channels = "@ + dec_seq(total)
}

/// Encodes a status snapshot as the three-line record.
pub fn status_to_toml(status: &ServiceStatus) -> (r: String)
    ensures
        r@ == spec_status_record(
            status.state,
            status.active_channels as nat,
            status.total_channels as nat,
        ),
{
    let mut s = String::from_str("state = \"");
    match &status.state {
        ServiceState::Stopped => s.append("Stopped"),
        ServiceState::Starting => s.append("Starting"),
        ServiceState::Running => s.append("Running"),
        ServiceState::Stopping => s.append("Stopping"),
        ServiceState::Error(_) => s.append("Error"),
    }
    s.append("\"\nactive_channels = ");
    let a = dec_string_u64(status.active_channels as u64);
    s.append(a.as_str());
    s.append("\ntotal_channels = ");
    let t = dec_string_u64(status.total_channels as u64);
    s.append(t.as_str());
    s
}

/// True when the name is one that a status record can carry.
pub open spec fn spec_known_state_name(name: Seq<char>) -> bool {
    ||| name == "Stopped"@
    ||| name == "Starting"@
    ||| name == "Running"@
    ||| name == "Stopping"@
    ||| name == "Error"@
}

/// A well-formed state line: `state = "<name>"` with a known name.
pub open spec fn spec_state_line_ok(l: Seq<char>) -> bool {
    &&& l.len() >= 10
    &&& l.take(9) == "state = \""@
    &&& l.last() == '"'
    &&& spec_known_state_name(l.subrange(9, l.len() - 1))
}

/// A well-formed count line: the given prefix, then a decimal count
/// within the machine's range.
pub open spec fn spec_count_line_ok(l: Seq<char>, prefix: Seq<char>) -> bool {
    &&& l.len() > prefix.len()
    &&& l.take(prefix.len() as int) == prefix
    &&& is_dec_string(l.skip(prefix.len() as int))
    &&& dec_val(num_body(l.skip(prefix.len() as int))) <= usize::MAX
}

/// A well-formed status record: exactly three lines, a state line
/// and the two count lines.
pub open spec fn spec_record_valid(s: Seq<char>) -> bool {
    let ls = spec_lines(s);
    &&& ls.len() == 3
    &&& spec_state_line_ok(ls[0])
    &&& spec_count_line_ok(ls[1], "active_channels = "@)
    &&& spec_count_line_ok(ls[2], "total_channels = "@)
}

/// The state name a well-formed record carries.
pub open spec fn spec_record_tag(s: Seq<char>) -> Seq<char> {
    let l = spec_lines(s)[0];
    l.subrange(9, l.len() - 1)
}

/// The active-channel count a well-formed record carries.
pub open spec fn spec_record_active(s: Seq<char>) -> nat {
    dec_val(num_body(spec_lines(s)[1].skip(18)))
}

/// The total-channel count a well-formed record carries.
pub open spec fn spec_record_total(s: Seq<char>) -> nat {
    dec_val(num_body(spec_lines(s)[2].skip(17)))
}

/// Decodes a three-line status record. Exactly the well-formed
/// records decode; the state comes back under its name — an `Error`
/// state with an empty reason, as the record does not carry one —
/// and the counts come back exactly.
pub fn parse_status_toml(s: &str) -> (r: Option<ServiceStatus>)
    ensures
        r is Some <==> spec_record_valid(s@),
        r matches Some(st) ==> spec_state_name(st.state) == spec_record_tag(s@),
        r matches Some(st) ==> (st.state matches ServiceState::Error(m) ==> m@ =~= Seq::<
            char,
        >::empty()),
        r matches Some(st) ==> st.active_channels as nat == spec_record_active(s@),
        r matches Some(st) ==> st.total_channels as nat == spec_record_total(s@),
{
    proof {
        reveal_strlit("state = \"");
        reveal_strlit("active_channels = ");
        reveal_strlit("total_channels = ");
        reveal_strlit("Stopped");
        reveal_strlit("Starting");
        reveal_strlit("Running");
        reveal_strlit("Stopping");
        reveal_strlit("Error");
        assert("state = \""@.len() == 9);
        assert("active_channels = "@.len() == 18);
        assert("total_channels = "@.len() == 17);
    }
    let lines = split_lines(s);
    if lines.len() != 3 {
        return None;
    }
    proof {
        assert(str_views(lines@)[0] == lines@[0]@);
        assert(str_views(lines@)[1] == lines@[1]@);
        assert(str_views(lines@)[2] == lines@[2]@);
    }
    let l0 = lines[0].as_str();
    let n0 = l0.unicode_len();
    if !str_starts_with(l0, "state = \"") {
        return None;
    }
    if n0 < 10 {
        return None;
    }
    if l0.get_char(n0 - 1) != '"' {
        return None;
    }
    let name = l0.substring_char(9, n0 - 1);
    proof {
        assert(name@ =~= l0@.subrange(9, l0@.len() - 1));
    }
    let state = if str_eq(name, "Stopped") {
        ServiceState::Stopped
    } else if str_eq(name, "Starting") {
        ServiceState::Starting
    } else if str_eq(name, "Running") {
        ServiceState::Running
    } else if str_eq(name, "Stopping") {
        ServiceState::Stopping
    } else if str_eq(name, "Error") {
        ServiceState::Error(String::new())
    } else {
        return None;
    };
    let l1 = lines[1].as_str();
    let n1 = l1.unicode_len();
    if !str_starts_with(l1, "active_channels = ") {
        return None;
    }
    let active64 = match parse_u64(l1.substring_char(18, n1)) {
        Some(v) => v,
        None => {
            return None;
        },
    };
    if active64 > usize::MAX as u64 {
        return None;
    }
    let l2 = lines[2].as_str();
    let n2 = l2.unicode_len();
    if !str_starts_with(l2, "total_channels = ") {
        return None;
    }
    let total64 = match parse_u64(l2.substring_char(17, n2)) {
        Some(v) => v,
        None => {
            return None;
        },
    };
    if total64 > usize::MAX as u64 {
        return None;
    }
    proof {
        assert(l1@.skip(18) =~= l1@.subrange(18, l1@.len() as int));
        assert(l2@.skip(17) =~= l2@.subrange(17, l2@.len() as int));
        assert(l0@.take(9) =~= l0@.subrange(0, 9));
        assert(l1@.take(18) =~= l1@.subrange(0, 18));
        assert(l2@.take(17) =~= l2@.subrange(0, 17));
    }
    Some(
        ServiceStatus {
            state,
            active_channels: active64 as usize,
            total_channels: total64 as usize,
        },
    )
}

/// True when a request line asks the daemon to stop: the line,
/// trimmed, is `stop` in any casing. Every other line is a status
/// request.
pub open spec fn spec_is_stop(line: Seq<char>) -> bool {
    seq_ieq(trim_spec(line), "stop"@)
}

/// Answers one control-plane request line: a stop request (and only
/// one) yields `true` with the body `ok` plus newline; anything else
/// yields the status record of the given snapshot.
pub fn handle_request(line: &str, status: &ServiceStatus) -> (r: (bool, String))
    ensures
        r.0 == spec_is_stop(line@),
        r.0 ==> r.1@ == "ok\n"@,
        !r.0 ==> r.1@ == spec_status_record(
            status.state,
            status.active_channels as nat,
            status.total_channels as nat,
        ),
{
    let t = trim_str(line);
    if str_eq_ignore_case(t, "stop") {
        (true, String::from_str("ok\n"))
    } else {
        (false, status_to_toml(status))
    }
}

/// The status a caller reports when no daemon can be reached: the
/// service is stopped, no channel active, the configured total.
pub fn derived_stopped_status(total_channels: usize) -> (r: ServiceStatus)
    ensures
        r.state is Stopped,
        r.active_channels == 0,
        r.total_channels == total_channels,
{
    ServiceStatus {
        state: ServiceState::Stopped,
        active_channels: 0,
        total_channels,
    }
}

/// The directory holding the run files: everything before the last
/// slash of the configuration file path; the root for a path in the
/// root; the current directory for an empty path or a bare `/`.
pub open spec fn spec_run_dir(p: Seq<char>) -> Seq<char> {
    let i = last_where(p, |c: char| c == '/');
    if i == -1 {
        if p.len() == 0 {
            "."@
        } else {
            Seq::empty()
        }
    } else if i == 0 {
        if p.len() == 1 {
            "."@
        } else {
            "/"@
        }
    } else {
        p.take(i)
    }
}

/// A directory joined with a file name: a slash between them unless
/// the directory is empty or already ends in one.
pub open spec fn spec_join_path(d: Seq<char>, f: Seq<char>) -> Seq<char> {
    if d.len() == 0 {
        f
    } else if d.last() == '/' {
        d + f
    } else {
        d + seq!['/'] + f
    }
}

/// The directory beside the configuration file, where the run files
/// live.
pub fn run_dir(config_path: &str) -> (r: String)
    ensures
        r@ == spec_run_dir(config_path@),
{
    let n = config_path.unicode_len();
    let mut j: usize = n;
    while j > 0 && config_path.get_char(j - 1) != '/'
        invariant
            0 <= j <= n,
            n == config_path@.len(),
            forall|k: int| j <= k < n ==> config_path@[k] != '/',
        decreases j,
    {
        j = j - 1;
    }
    proof {
        if j == 0 {
            lemma_last_where_none(config_path@, |c: char| c == '/');
        } else {
            lemma_last_where_at(config_path@, |c: char| c == '/', j - 1);
        }
    }
    if j == 0 {
        if n == 0 {
            String::from_str(".")
        } else {
            String::new()
        }
    } else if j == 1 {
        if n == 1 {
            String::from_str(".")
        } else {
            String::from_str("/")
        }
    } else {
        String::from_str(config_path.substring_char(0, j - 1))
    }
}

fn join_path(dir: String, file: &str) -> (r: String)
    ensures
        r@ == spec_join_path(dir@, file@),
{
    let n = dir.as_str().unicode_len();
    if n == 0 {
        return String::from_str(file);
    }
    let mut out = dir;
    if out.as_str().get_char(n - 1) != '/' {
        out.append("/");
        proof {
            reveal_strlit("/");
            assert("/"@ =~= seq!['/']);
        }
    }
    out.append(file);
    out
}

/// Path of the PID run file, beside the configuration file.
pub fn pid_file_path(config_path: &str) -> (r: String)
    ensures
        r@ == spec_join_path(spec_run_dir(config_path@), "ssh-channels-hub.pid"@),
{
    join_path(run_dir(config_path), "ssh-channels-hub.pid")
}

/// Path of the PORT run file, beside the configuration file.
pub fn port_file_path(config_path: &str) -> (r: String)
    ensures
        r@ == spec_join_path(spec_run_dir(config_path@), "ssh-channels-hub.port"@),
{
    join_path(run_dir(config_path), "ssh-channels-hub.port")
}

/// Round trip of the status record: encoding any state and any two
/// counts and decoding the result is the identity — the record is
/// well formed, carries exactly the state's name, and gives both
/// counts back unchanged. (The record carries no error reason, so an
/// `Error` state comes back as `Error` with an empty reason.)
pub proof fn lemma_status_record_roundtrip(state: ServiceState, active: usize, total: usize)
    ensures
        spec_record_valid(spec_status_record(state, active as nat, total as nat)),
        spec_record_tag(spec_status_record(state, active as nat, total as nat))
            == spec_state_name(state),
        spec_record_active(spec_status_record(state, active as nat, total as nat)) == active as nat,
        spec_record_total(spec_status_record(state, active as nat, total as nat)) == total as nat,
{
    reveal_strlit("state = \"");
    reveal_strlit("\"\nactive_channels = ");
    reveal_strlit("\ntotal_channels = ");
    reveal_strlit("active_channels = ");
    reveal_strlit("total_channels = ");
    reveal_strlit("Stopped");
    reveal_strlit("Starting");
    reveal_strlit("Running");
    reveal_strlit("Stopping");
    reveal_strlit("Error");
    let name = spec_state_name(state);
    let da = dec_seq(active as nat);
    let dt = dec_seq(total as nat);
    lemma_dec_seq_digits(active as nat);
    lemma_dec_seq_digits(total as nat);
    lemma_dec_val_dec_seq(active as nat);
    lemma_dec_val_dec_seq(total as nat);
    assert("state = \""@.len() == 9);
    assert("\"\nactive_channels = "@.len() == 20);
    assert("\ntotal_channels = "@.len() == 18);
    assert("active_channels = "@.len() == 18);
    assert("total_channels = "@.len() == 17);
    assert("\"\nactive_channels = "@ =~= seq!['"'] + seq!['\n'] + "active_channels = "@);
    assert("\ntotal_channels = "@ =~= seq!['\n'] + "total_channels = "@);
    let l0 = "state = \""@ + name + seq!['"'];
    let l1 = "active_channels = "@ + da;
    let l2 = "total_channels = "@ + dt;
    let rec = spec_status_record(state, active as nat, total as nat);
    assert(rec =~= l0 + seq!['\n'] + (l1 + seq!['\n'] + l2));
    // None of the three lines contains a newline or ends in a
    // carriage return.
    assert(forall|k: int| 0 <= k < 9 ==> "state = \""@[k] != '\n');
    assert(forall|k: int| 0 <= k < 18 ==> "active_channels = "@[k] != '\n');
    assert(forall|k: int| 0 <= k < 17 ==> "total_channels = "@[k] != '\n');
    assert(5 <= name.len() <= 8);
    assert(forall|k: int| 0 <= k < name.len() ==> name[k] != '\n');
    assert forall|k: int| 0 <= k < l0.len() implies l0[k] != '\n' by {
        if k < 9 {
            assert(l0[k] == "state = \""@[k]);
        } else if k < 9 + name.len() {
            assert(l0[k] == name[k - 9]);
        } else {
            assert(l0[k] == '"');
        }
    }
    assert forall|k: int| 0 <= k < l1.len() implies l1[k] != '\n' by {
        if k < 18 {
            assert(l1[k] == "active_channels = "@[k]);
        } else {
            assert(l1[k] == da[k - 18]);
            assert(is_digit_char(da[k - 18]));
        }
    }
    assert forall|k: int| 0 <= k < l2.len() implies l2[k] != '\n' by {
        if k < 17 {
            assert(l2[k] == "total_channels = "@[k]);
        } else {
            assert(l2[k] == dt[k - 17]);
            assert(is_digit_char(dt[k - 17]));
        }
    }
    // Split the record at its two newlines.
    let rest1 = rec.skip(l0.len() as int + 1);
    assert(rec[l0.len() as int] == '\n');
    assert(forall|k: int| 0 <= k < l0.len() ==> rec[k] == l0[k]);
    lemma_lines_split(rec, l0.len() as int);
    assert(rec.take(l0.len() as int) =~= l0);
    assert(l0.last() == '"');
    assert(crate::text::strip_cr(l0) == l0);
    assert(rest1 =~= l1 + seq!['\n'] + l2);
    assert(rest1[l1.len() as int] == '\n');
    assert(forall|k: int| 0 <= k < l1.len() ==> rest1[k] == l1[k]);
    lemma_lines_split(rest1, l1.len() as int);
    assert(rest1.take(l1.len() as int) =~= l1);
    assert(l1.last() == da.last());
    assert(is_digit_char(da.last()));
    assert(crate::text::strip_cr(l1) == l1);
    let rest2 = rest1.skip(l1.len() as int + 1);
    assert(rest2 =~= l2);
    lemma_lines_whole(l2);
    assert(l2.last() == dt.last());
    assert(is_digit_char(dt.last()));
    assert(crate::text::strip_cr(l2) == l2);
    assert(spec_lines(rec) =~= seq![l0, l1, l2]);
    // Each line is well formed, and the fields come back unchanged.
    assert(l0.take(9) =~= "state = \""@);
    assert(l0.subrange(9, l0.len() - 1) =~= name);
    assert(l1.take(18) =~= "active_channels = "@);
    assert(l1.skip(18) =~= da);
    assert(l2.take(17) =~= "total_channels = "@);
    assert(l2.skip(17) =~= dt);
    assert(is_digit_char(da[0]));
    assert(da[0] != '+');
    assert(num_body(da) == da);
    assert(is_digit_char(dt[0]));
    assert(dt[0] != '+');
    assert(num_body(dt) == dt);
}

/// The control plane answers a status request faithfully: the
/// response body for any non-stop request is a well-formed record
/// that decodes to exactly the snapshot's state name and counts —
/// what a concurrent in-process status call sees.
pub proof fn lemma_status_response_faithful(line: Seq<char>, st: ServiceStatus)
    requires
        !spec_is_stop(line),
    ensures
        spec_record_valid(
            spec_status_record(st.state, st.active_channels as nat, st.total_channels as nat),
        ),
        spec_record_tag(
            spec_status_record(st.state, st.active_channels as nat, st.total_channels as nat),
        ) == spec_state_name(st.state),
        spec_record_active(
            spec_status_record(st.state, st.active_channels as nat, st.total_channels as nat),
        ) == st.active_channels as nat,
        spec_record_total(
            spec_status_record(st.state, st.active_channels as nat, st.total_channels as nat),
        ) == st.total_channels as nat,
{
    lemma_status_record_roundtrip(st.state, st.active_channels, st.total_channels);
}

/// A state with its marker for terminal status output.
pub fn state_display(state: &ServiceState) -> (r: &'static str)
    ensures
        state is Running ==> r@ == "🟢 Running"@,
        state is Stopped ==> r@ == "🔴 Stopped"@,
        state is Starting ==> r@ == "🟡 Starting"@,
        state is Stopping ==> r@ == "🟠 Stopping"@,
        state is Error ==> r@ == "❌ Error"@,
{
    match state {
        ServiceState::Running => "🟢 Running",
        ServiceState::Stopped => "🔴 Stopped",
        ServiceState::Starting => "🟡 Starting",
        ServiceState::Stopping => "🟠 Stopping",
        ServiceState::Error(_) => "❌ Error",
    }
}

} // verus!
