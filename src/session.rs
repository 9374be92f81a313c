//! A proxy session: the two tokens that name its pipes, the worker's launch
//! line that carries them, and reading them back from the worker's arguments.
use vstd::prelude::*;
use crate::pipe::{pipe_name, pipe_prefix};
use crate::text::push_char;
use crate::log::views_of;

verus! {

pub open spec fn is_lower_hex(c: char) -> bool {
    ('0' <= c && c <= '9') || ('a' <= c && c <= 'f')
}

pub open spec fn is_hyphen_position(i: int) -> bool {
    i == 8 || i == 13 || i == 18 || i == 23
}

/// The hyphenated lower-case text form of a UUID: `8-4-4-4-12` hex digits.
pub open spec fn is_hyphenated_uuid(s: Seq<char>) -> bool {
    &&& s.len() == 36
    &&& forall|i: int| 0 <= i < 36 ==> if is_hyphen_position(i) {
        #[trigger] s[i] == '-'
    } else {
        is_lower_hex(s[i])
    }
}

/// A session token: 32 lower-case hex digits.
pub open spec fn is_token(s: Seq<char>) -> bool {
    &&& s.len() == 32
    &&& forall|i: int| 0 <= i < s.len() ==> is_lower_hex(#[trigger] s[i])
}

/// `s` without its hyphens.
pub open spec fn drop_hyphens(s: Seq<char>) -> Seq<char>
    decreases s.len(),
{
    if s.len() == 0 {
        s
    } else if s.last() == '-' {
        drop_hyphens(s.drop_last())
    } else {
        drop_hyphens(s.drop_last()).push(s.last())
    }
}

/// Relies on uuid::Uuid::new_v4 and its `Display`, which writes the
/// hyphenated lower-case form. The value is random: nothing more is stated.
/// The call panics only when the system's random source fails.
#[verifier::external_body]
fn random_uuid_text() -> (r: String)
    ensures
        is_hyphenated_uuid(r@),
{
    uuid::Uuid::new_v4().to_string()
}

/// `text` with every `-` removed.
pub fn without_hyphens(text: &str) -> (r: String)
    ensures
        r@ == drop_hyphens(text@),
{
    let mut out = String::new();
    for c in it: text.chars()
        invariant
            it.seq() == text@,
            out@ == drop_hyphens(text@.take(it.index() as int)),
    {
        let ghost next = text@.take(it.index() + 1);
        assert(next.drop_last() == text@.take(it.index() as int));
        if c != '-' {
            push_char(&mut out, c);
        }
    }
    assert(text@.take(text@.len() as int) =~= text@);
    out
}

proof fn lemma_drop_hyphens_append(a: Seq<char>, b: Seq<char>)
    ensures
        drop_hyphens(a + b) == drop_hyphens(a) + drop_hyphens(b),
    decreases b.len(),
{
    if b.len() == 0 {
        assert(a + b =~= a);
        assert(drop_hyphens(a) + drop_hyphens(b) =~= drop_hyphens(a));
    } else {
        assert((a + b).drop_last() =~= a + b.drop_last());
        assert((a + b).last() == b.last());
        lemma_drop_hyphens_append(a, b.drop_last());
        if b.last() != '-' {
            assert(drop_hyphens(a) + drop_hyphens(b.drop_last()).push(b.last())
                =~= (drop_hyphens(a) + drop_hyphens(b.drop_last())).push(b.last()));
        }
    }
}

proof fn lemma_drop_hyphens_hex(s: Seq<char>)
    requires
        forall|i: int| 0 <= i < s.len() ==> is_lower_hex(#[trigger] s[i]),
    ensures
        drop_hyphens(s) == s,
    decreases s.len(),
{
    if s.len() > 0 {
        assert(is_lower_hex(s[s.len() - 1]));
        lemma_drop_hyphens_hex(s.drop_last());
        assert(s.drop_last().push(s.last()) =~= s);
    }
}

/// The hyphenated form of a UUID without its hyphens is a token.
proof fn lemma_uuid_token(s: Seq<char>)
    requires
        is_hyphenated_uuid(s),
    ensures
        is_token(drop_hyphens(s)),
{
    let g0 = s.subrange(0, 8);
    let g1 = s.subrange(9, 13);
    let g2 = s.subrange(14, 18);
    let g3 = s.subrange(19, 23);
    let g4 = s.subrange(24, 36);
    let h = seq!['-'];
    assert(s[8] == '-' && s[13] == '-' && s[18] == '-' && s[23] == '-');
    assert(s =~= g0 + h + g1 + h + g2 + h + g3 + h + g4);
    assert forall|i: int| 0 <= i < g0.len() implies is_lower_hex(#[trigger] g0[i]) by { assert(g0[i] == s[i]); }
    assert forall|i: int| 0 <= i < g1.len() implies is_lower_hex(#[trigger] g1[i]) by { assert(g1[i] == s[i + 9]); }
    assert forall|i: int| 0 <= i < g2.len() implies is_lower_hex(#[trigger] g2[i]) by { assert(g2[i] == s[i + 14]); }
    assert forall|i: int| 0 <= i < g3.len() implies is_lower_hex(#[trigger] g3[i]) by { assert(g3[i] == s[i + 19]); }
    assert forall|i: int| 0 <= i < g4.len() implies is_lower_hex(#[trigger] g4[i]) by { assert(g4[i] == s[i + 24]); }
    lemma_drop_hyphens_hex(g0);
    lemma_drop_hyphens_hex(g1);
    lemma_drop_hyphens_hex(g2);
    lemma_drop_hyphens_hex(g3);
    lemma_drop_hyphens_hex(g4);
    assert(drop_hyphens(h) =~= Seq::<char>::empty()) by {
        assert(h.last() == '-');
        assert(h.drop_last() =~= Seq::<char>::empty());
        assert(drop_hyphens(h.drop_last()) =~= Seq::<char>::empty());
    }
    lemma_drop_hyphens_append(g0, h);
    lemma_drop_hyphens_append(g0 + h, g1);
    lemma_drop_hyphens_append(g0 + h + g1, h);
    lemma_drop_hyphens_append(g0 + h + g1 + h, g2);
    lemma_drop_hyphens_append(g0 + h + g1 + h + g2, h);
    lemma_drop_hyphens_append(g0 + h + g1 + h + g2 + h, g3);
    lemma_drop_hyphens_append(g0 + h + g1 + h + g2 + h + g3, h);
    lemma_drop_hyphens_append(g0 + h + g1 + h + g2 + h + g3 + h, g4);
    let t = drop_hyphens(s);
    assert(t =~= g0 + g1 + g2 + g3 + g4);
    assert forall|i: int| 0 <= i < t.len() implies is_lower_hex(#[trigger] t[i]) by {
        if i < 8 {
            assert(t[i] == g0[i]);
        } else if i < 12 {
            assert(t[i] == g1[i - 8]);
        } else if i < 16 {
            assert(t[i] == g2[i - 12]);
        } else if i < 20 {
            assert(t[i] == g3[i - 16]);
        } else {
            assert(t[i] == g4[i - 20]);
        }
    }
}

/// A fresh session token, from a random UUID without its hyphens.
pub fn new_token() -> (r: String)
    ensures
        is_token(r@),
{
    let text = random_uuid_text();
    let r = without_hyphens(text.as_str());
    proof {
        lemma_uuid_token(text@);
    }
    r
}

/// The two tokens that name a session's pipes: `inbound_token` names the
/// pipe that carries terminal output from the worker to the supervisor,
/// `outbound_token` the one that carries input from the supervisor to the worker.
pub struct ProxySession {
    pub inbound_token: String,
    pub outbound_token: String,
}

impl ProxySession {
    pub fn generate() -> (r: Self)
        ensures
            is_token(r.inbound_token@),
            is_token(r.outbound_token@),
    {
        let inbound_token = new_token();
        let outbound_token = new_token();
        ProxySession { inbound_token, outbound_token }
    }

    /// Name of the pipe from the worker to the supervisor.
    pub fn inbound_pipe_name(&self) -> (r: String)
        ensures
            r@ == pipe_prefix() + self.inbound_token@,
    {
        pipe_name(self.inbound_token.as_str())
    }

    /// Name of the pipe from the supervisor to the worker.
    pub fn outbound_pipe_name(&self) -> (r: String)
        ensures
            r@ == pipe_prefix() + self.outbound_token@,
    {
        pipe_name(self.outbound_token.as_str())
    }
}

/// The parts joined with single spaces between them.
pub open spec fn joined(parts: Seq<Seq<char>>) -> Seq<char>
    decreases parts.len(),
{
    if parts.len() == 0 {
        Seq::empty()
    } else if parts.len() == 1 {
        parts[0]
    } else {
        joined(parts.drop_last()) + seq![' '] + parts.last()
    }
}

/// The arguments from index `start` on, joined with single spaces.
pub fn join_args(args: &Vec<String>, start: usize) -> (r: String)
    ensures
        start <= args.len() ==> r@ == joined(views_of(args@.subrange(start as int, args@.len() as int))),
        start >= args.len() ==> r@ == Seq::<char>::empty(),
{
    let mut out = String::new();
    if start >= args.len() {
        if start == args.len() {
            assert(views_of(args@.subrange(start as int, args@.len() as int)) =~= Seq::<Seq<char>>::empty());
        }
        return out;
    }
    let mut i: usize = start;
    while i < args.len()
        invariant
            start <= i <= args.len(),
            start < args.len(),
            out@ == joined(views_of(args@.subrange(start as int, i as int))),
        decreases args.len() - i,
    {
        let ghost prev = views_of(args@.subrange(start as int, i as int));
        let ghost next = views_of(args@.subrange(start as int, i + 1));
        assert(next.drop_last() =~= prev);
        assert(next.last() == args@[i as int]@);
        if i > start {
            out.append(" ");
            proof {
                reveal_strlit(" ");
            }
        }
        out.append(args[i].as_str());
        i = i + 1;
        proof {
            if i - 1 == start {
                assert(next.len() == 1);
                assert(out@ =~= joined(next));
            } else {
                assert(out@ =~= joined(next));
            }
        }
    }
    out
}

/// The line that launches the worker: its program quoted, the inbound and
/// the outbound token, the target program quoted, then the target's
/// arguments.
pub open spec fn command_line(worker: Seq<char>, inbound: Seq<char>, outbound: Seq<char>, target: Seq<char>, target_args: Seq<char>) -> Seq<char> {
    seq!['"'] + worker + seq!['"', ' '] + inbound + seq![' '] + outbound + seq![' ', '"'] + target + seq!['"', ' '] + target_args
}

pub fn worker_command_line(worker_program: &str, session: &ProxySession, target_program: &str, target_args: &str) -> (r: String)
    ensures
        r@ == command_line(worker_program@, session.inbound_token@, session.outbound_token@, target_program@, target_args@),
{
    proof {
        reveal_strlit("\"");
        reveal_strlit("\" ");
        reveal_strlit(" ");
        reveal_strlit(" \"");
    }
    let mut line = String::from_str("\"");
    line.append(worker_program);
    line.append("\" ");
    line.append(session.inbound_token.as_str());
    line.append(" ");
    line.append(session.outbound_token.as_str());
    line.append(" \"");
    line.append(target_program);
    line.append("\" ");
    line.append(target_args);
    assert(line@ =~= command_line(worker_program@, session.inbound_token@, session.outbound_token@, target_program@, target_args@));
    line
}

/// A program to run and its arguments joined into one string.
pub struct TargetCommand {
    pub program: String,
    pub args: String,
}

/// Reads the target from the supervisor's arguments (the first being its own
/// path): the program, then its arguments. `None` when no program is given.
pub fn target_from_args(args: &Vec<String>) -> (r: Option<TargetCommand>)
    ensures
        args.len() < 2 <==> r is None,
        r matches Some(t) ==> t.program@ == args@[1]@
            && t.args@ == joined(views_of(args@.subrange(2, args@.len() as int))),
{
    if args.len() < 2 {
        None
    } else {
        let program = args[1].clone();
        let joined_args = join_args(args, 2);
        Some(TargetCommand { program, args: joined_args })
    }
}

/// What the worker reads from its launch arguments, from its own viewpoint:
/// the token of the pipe it writes to, of the pipe it reads from, and the target.
pub struct WorkerLaunch {
    pub write_token: String,
    pub read_token: String,
    pub target: TargetCommand,
}

impl WorkerLaunch {
    pub fn write_pipe_name(&self) -> (r: String)
        ensures
            r@ == pipe_prefix() + self.write_token@,
    {
        pipe_name(self.write_token.as_str())
    }

    pub fn read_pipe_name(&self) -> (r: String)
        ensures
            r@ == pipe_prefix() + self.read_token@,
    {
        pipe_name(self.read_token.as_str())
    }
}

/// Reads the worker's arguments (the first being its own path): the token
/// of the pipe it writes to, of the pipe it reads from, the target program,
/// then the target's arguments. `None` when fewer than three are given.
pub fn parse_worker_args(args: &Vec<String>) -> (r: Option<WorkerLaunch>)
    ensures
        args.len() < 4 <==> r is None,
        r matches Some(w) ==> {
            &&& w.write_token@ == args@[1]@
            &&& w.read_token@ == args@[2]@
            &&& w.target.program@ == args@[3]@
            &&& w.target.args@ == joined(views_of(args@.subrange(4, args@.len() as int)))
        },
{
    if args.len() < 4 {
        None
    } else {
        let write_token = args[1].clone();
        let read_token = args[2].clone();
        let program = args[3].clone();
        let target_args = join_args(args, 4);
        Some(WorkerLaunch { write_token, read_token, target: TargetCommand { program, args: target_args } })
    }
}

} // verus!
