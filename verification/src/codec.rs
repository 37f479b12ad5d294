//! The record codec: a self-delimiting text form of a job record, with a
//! proved round trip.
//!
//! Any format that preserves the data model is acceptable to the store, which
//! treats record values as opaque strings. This one writes each string with
//! `\`-escapes for the two reserved characters and a `;` terminator; an
//! optional payload as `n` or `s` plus a string; a status as a tag character
//! (`Q`, `R`, `L`, `F`, `E`) plus its payloads; and the argument list as `a`
//! plus a string per element, closed by `e`. A record is id, status, then
//! arguments.

use vstd::prelude::*;
use crate::status::{Status, StatusView, opt_view};
use crate::job::{Job, JobView};

verus! {

// ---------------------------------------------------------------------------
// Specification-level encoding
// ---------------------------------------------------------------------------

/// The escape of one character: `\` and `;` are preceded by `\`.
pub open spec fn esc_char(c: char) -> Seq<char> {
    if c == '\\' || c == ';' {
        seq!['\\', c]
    } else {
        seq![c]
    }
}

/// The escape of a string, character by character.
pub open spec fn esc(s: Seq<char>) -> Seq<char>
    decreases s.len(),
{
    if s.len() == 0 {
        Seq::empty()
    } else {
        esc_char(s[0]) + esc(s.drop_first())
    }
}

/// An encoded string: its escape, closed by `;`.
pub open spec fn enc_str(s: Seq<char>) -> Seq<char> {
    esc(s) + seq![';']
}

/// An encoded optional payload: `n`, or `s` plus the string.
pub open spec fn enc_opt(o: Option<Seq<char>>) -> Seq<char> {
    match o {
        None => seq!['n'],
        Some(s) => seq!['s'] + enc_str(s),
    }
}

/// An encoded status: a tag character plus its payloads.
pub open spec fn enc_status(st: StatusView) -> Seq<char> {
    match st {
        StatusView::Queued => seq!['Q'],
        StatusView::Running(p) => seq!['R'] + enc_opt(p),
        StatusView::Lost => seq!['L'],
        StatusView::Finished(p) => seq!['F'] + enc_opt(p),
        StatusView::Failed { message, backtrace } => seq!['E'] + enc_str(message) + enc_str(
            backtrace,
        ),
    }
}

/// An encoded argument list: `a` plus a string per element, closed by `e`.
pub open spec fn enc_args(args: Seq<Seq<char>>) -> Seq<char>
    decreases args.len(),
{
    if args.len() == 0 {
        seq!['e']
    } else {
        seq!['a'] + enc_str(args[0]) + enc_args(args.drop_first())
    }
}

/// An encoded job record: id, status, then arguments.
pub open spec fn enc_job(j: JobView) -> Seq<char> {
    enc_str(j.id) + enc_status(j.status) + enc_args(j.args)
}

// ---------------------------------------------------------------------------
// Specification-level parsing
// ---------------------------------------------------------------------------

/// Parse one encoded string from the front of `input`; on success, the value
/// and the unconsumed rest.
pub open spec fn dec_str(input: Seq<char>) -> Option<(Seq<char>, Seq<char>)>
    decreases input.len(),
{
    if input.len() == 0 {
        None
    } else if input[0] == ';' {
        Some((Seq::empty(), input.drop_first()))
    } else if input[0] == '\\' {
        if input.len() < 2 {
            None
        } else {
            match dec_str(input.subrange(2, input.len() as int)) {
                Some(p) => Some((seq![input[1]] + p.0, p.1)),
                None => None,
            }
        }
    } else {
        match dec_str(input.drop_first()) {
            Some(p) => Some((seq![input[0]] + p.0, p.1)),
            None => None,
        }
    }
}

/// A parsed rest is strictly shorter than its input.
pub proof fn lemma_dec_str_shrinks(input: Seq<char>)
    ensures
        dec_str(input) matches Some(p) ==> p.1.len() < input.len(),
    decreases input.len(),
{
    if input.len() == 0 {
    } else if input[0] == ';' {
    } else if input[0] == '\\' {
        if input.len() >= 2 {
            lemma_dec_str_shrinks(input.subrange(2, input.len() as int));
        }
    } else {
        lemma_dec_str_shrinks(input.drop_first());
    }
}

/// Parse one encoded optional payload from the front of `input`.
pub open spec fn dec_opt(input: Seq<char>) -> Option<(Option<Seq<char>>, Seq<char>)> {
    if input.len() == 0 {
        None
    } else if input[0] == 'n' {
        Some((None, input.drop_first()))
    } else if input[0] == 's' {
        match dec_str(input.drop_first()) {
            Some(p) => Some((Some(p.0), p.1)),
            None => None,
        }
    } else {
        None
    }
}

/// Parse one encoded status from the front of `input`.
pub open spec fn dec_status(input: Seq<char>) -> Option<(StatusView, Seq<char>)> {
    if input.len() == 0 {
        None
    } else if input[0] == 'Q' {
        Some((StatusView::Queued, input.drop_first()))
    } else if input[0] == 'L' {
        Some((StatusView::Lost, input.drop_first()))
    } else if input[0] == 'R' {
        match dec_opt(input.drop_first()) {
            Some(p) => Some((StatusView::Running(p.0), p.1)),
            None => None,
        }
    } else if input[0] == 'F' {
        match dec_opt(input.drop_first()) {
            Some(p) => Some((StatusView::Finished(p.0), p.1)),
            None => None,
        }
    } else if input[0] == 'E' {
        match dec_str(input.drop_first()) {
            Some(m) => match dec_str(m.1) {
                Some(b) => Some(
                    (StatusView::Failed { message: m.0, backtrace: b.0 }, b.1),
                ),
                None => None,
            },
            None => None,
        }
    } else {
        None
    }
}

/// Parse one encoded argument list from the front of `input`.
pub open spec fn dec_args(input: Seq<char>) -> Option<(Seq<Seq<char>>, Seq<char>)>
    decreases input.len(),
    via dec_args_decreases
{
    if input.len() == 0 {
        None
    } else if input[0] == 'e' {
        Some((Seq::empty(), input.drop_first()))
    } else if input[0] == 'a' {
        match dec_str(input.drop_first()) {
            Some(p) => match dec_args(p.1) {
                Some(q) => Some((seq![p.0] + q.0, q.1)),
                None => None,
            },
            None => None,
        }
    } else {
        None
    }
}

#[via_fn]
proof fn dec_args_decreases(input: Seq<char>) {
    if input.len() > 0 && input[0] == 'a' {
        lemma_dec_str_shrinks(input.drop_first());
    }
}

/// Parse a whole job record; succeeds only when the input is consumed whole.
pub open spec fn dec_job(input: Seq<char>) -> Option<JobView> {
    match dec_str(input) {
        Some(idp) => match dec_status(idp.1) {
            Some(stp) => match dec_args(stp.1) {
                Some(ap) => if ap.1.len() == 0 {
                    Some(JobView { id: idp.0, status: stp.0, args: ap.0 })
                } else {
                    None
                },
                None => None,
            },
            None => None,
        },
        None => None,
    }
}

// ---------------------------------------------------------------------------
// The round trip: parsing an encoding gives the record back
// ---------------------------------------------------------------------------

/// Escaping distributes over concatenation.
pub proof fn lemma_esc_concat(a: Seq<char>, b: Seq<char>)
    ensures
        esc(a + b) == esc(a) + esc(b),
    decreases a.len(),
{
    if a.len() == 0 {
        assert(a + b =~= b);
        assert(esc(a) + esc(b) =~= esc(b));
    } else {
        assert((a + b).drop_first() =~= a.drop_first() + b);
        assert((a + b)[0] == a[0]);
        lemma_esc_concat(a.drop_first(), b);
        assert(esc(a + b) =~= esc(a) + esc(b));
    }
}

/// An encoded string in front of any rest parses back to the string.
pub proof fn lemma_dec_enc_str(s: Seq<char>, rest: Seq<char>)
    ensures
        dec_str(enc_str(s) + rest) == Some((s, rest)),
    decreases s.len(),
{
    let input = enc_str(s) + rest;
    if s.len() == 0 {
        assert(input[0] == ';');
        assert(input.drop_first() =~= rest);
        assert(s =~= Seq::<char>::empty());
    } else {
        let c = s[0];
        let tail = s.drop_first();
        lemma_dec_enc_str(tail, rest);
        assert(esc(s) == esc_char(c) + esc(tail));
        if c == '\\' || c == ';' {
            assert(input[0] == '\\');
            assert(input[1] == c);
            assert(input.subrange(2, input.len() as int) =~= enc_str(tail) + rest);
            assert(seq![c] + tail =~= s);
        } else {
            assert(input[0] == c);
            assert(input.drop_first() =~= enc_str(tail) + rest);
            assert(seq![c] + tail =~= s);
        }
    }
}

/// An encoded optional payload in front of any rest parses back to it.
pub proof fn lemma_dec_enc_opt(o: Option<Seq<char>>, rest: Seq<char>)
    ensures
        dec_opt(enc_opt(o) + rest) == Some((o, rest)),
{
    let input = enc_opt(o) + rest;
    match o {
        None => {
            assert(input[0] == 'n');
            assert(input.drop_first() =~= rest);
        },
        Some(s) => {
            assert(input[0] == 's');
            assert(input.drop_first() =~= enc_str(s) + rest);
            lemma_dec_enc_str(s, rest);
        },
    }
}

/// An encoded status in front of any rest parses back to it.
pub proof fn lemma_dec_enc_status(st: StatusView, rest: Seq<char>)
    ensures
        dec_status(enc_status(st) + rest) == Some((st, rest)),
{
    let input = enc_status(st) + rest;
    match st {
        StatusView::Queued => {
            assert(input[0] == 'Q');
            assert(input.drop_first() =~= rest);
        },
        StatusView::Lost => {
            assert(input[0] == 'L');
            assert(input.drop_first() =~= rest);
        },
        StatusView::Running(p) => {
            assert(input[0] == 'R');
            assert(input.drop_first() =~= enc_opt(p) + rest);
            lemma_dec_enc_opt(p, rest);
        },
        StatusView::Finished(p) => {
            assert(input[0] == 'F');
            assert(input.drop_first() =~= enc_opt(p) + rest);
            lemma_dec_enc_opt(p, rest);
        },
        StatusView::Failed { message, backtrace } => {
            assert(input[0] == 'E');
            assert(input.drop_first() =~= enc_str(message) + (enc_str(backtrace) + rest));
            lemma_dec_enc_str(message, enc_str(backtrace) + rest);
            lemma_dec_enc_str(backtrace, rest);
        },
    }
}

/// An encoded argument list in front of any rest parses back to it.
pub proof fn lemma_dec_enc_args(args: Seq<Seq<char>>, rest: Seq<char>)
    ensures
        dec_args(enc_args(args) + rest) == Some((args, rest)),
    decreases args.len(),
{
    let input = enc_args(args) + rest;
    if args.len() == 0 {
        assert(input[0] == 'e');
        assert(input.drop_first() =~= rest);
        assert(args =~= Seq::<Seq<char>>::empty());
    } else {
        let tail = args.drop_first();
        assert(input[0] == 'a');
        assert(input.drop_first() =~= enc_str(args[0]) + (enc_args(tail) + rest));
        lemma_dec_enc_str(args[0], enc_args(tail) + rest);
        lemma_dec_enc_args(tail, rest);
        assert(seq![args[0]] + tail =~= args);
    }
}

/// The round trip: parsing the encoding of any record gives the record back.
pub proof fn lemma_dec_enc_job(j: JobView)
    ensures
        dec_job(enc_job(j)) == Some(j),
{
    let input = enc_job(j);
    assert(input =~= enc_str(j.id) + (enc_status(j.status) + (enc_args(j.args)
        + Seq::<char>::empty())));
    lemma_dec_enc_str(j.id, enc_status(j.status) + (enc_args(j.args) + Seq::<char>::empty()));
    lemma_dec_enc_status(j.status, enc_args(j.args) + Seq::<char>::empty());
    lemma_dec_enc_args(j.args, Seq::<char>::empty());
}

// ---------------------------------------------------------------------------
// Executable encoding
// ---------------------------------------------------------------------------

/// Relies on `String::from_iter` for `char` items: the collected string holds
/// exactly the characters of the vector, in order.
#[verifier::external_body]
fn chars_to_string(v: Vec<char>) -> (r: String)
    ensures
        r@ == v@,
{
    String::from_iter(v)
}

/// Append the encoding of one string.
fn push_str_enc(out: &mut Vec<char>, s: &str)
    ensures
        final(out)@ == old(out)@ + enc_str(s@),
{
    let n = s.unicode_len();
    let mut i: usize = 0;
    while i < n
        invariant
            i <= n,
            n == s@.len(),
            out@ == old(out)@ + esc(s@.subrange(0, i as int)),
        decreases n - i,
    {
        let c = s.get_char(i);
        if c == '\\' || c == ';' {
            out.push('\\');
        }
        out.push(c);
        proof {
            let pre = s@.subrange(0, i as int);
            let one = seq![s@[i as int]];
            lemma_esc_concat(pre, one);
            assert(one.drop_first() =~= Seq::<char>::empty());
            assert(esc(Seq::<char>::empty()) == Seq::<char>::empty());
            assert(esc(one) == esc_char(one[0]) + esc(one.drop_first()));
            assert(esc(one) =~= esc_char(s@[i as int]));
            assert(s@.subrange(0, i + 1) =~= pre + seq![s@[i as int]]);
            assert(out@ =~= old(out)@ + esc(s@.subrange(0, i + 1)));
        }
        i += 1;
    }
    out.push(';');
    proof {
        assert(s@.subrange(0, n as int) =~= s@);
        assert(out@ =~= old(out)@ + enc_str(s@));
    }
}

/// Append the encoding of one optional payload.
fn push_opt_enc(out: &mut Vec<char>, o: &Option<String>)
    ensures
        final(out)@ == old(out)@ + enc_opt(opt_view(*o)),
{
    match o {
        None => {
            out.push('n');
            proof {
                assert(out@ =~= old(out)@ + enc_opt(None));
            }
        },
        Some(s) => {
            out.push('s');
            push_str_enc(out, s.as_str());
            proof {
                assert(out@ =~= old(out)@ + enc_opt(Some(s@)));
            }
        },
    }
}

/// Append the encoding of one status.
fn push_status_enc(out: &mut Vec<char>, st: &Status)
    ensures
        final(out)@ == old(out)@ + enc_status(st@),
{
    match st {
        Status::QUEUED => {
            out.push('Q');
            proof {
                assert(out@ =~= old(out)@ + enc_status(st@));
            }
        },
        Status::LOST => {
            out.push('L');
            proof {
                assert(out@ =~= old(out)@ + enc_status(st@));
            }
        },
        Status::RUNNING(p) => {
            out.push('R');
            push_opt_enc(out, p);
            proof {
                assert(out@ =~= old(out)@ + enc_status(st@));
            }
        },
        Status::FINISHED(p) => {
            out.push('F');
            push_opt_enc(out, p);
            proof {
                assert(out@ =~= old(out)@ + enc_status(st@));
            }
        },
        Status::FAILED { message, backtrace } => {
            out.push('E');
            push_str_enc(out, message.as_str());
            push_str_enc(out, backtrace.as_str());
            proof {
                assert(out@ =~= old(out)@ + enc_status(st@));
            }
        },
    }
}

/// Append the encoding of the argument list.
fn push_args_enc(out: &mut Vec<char>, args: &Vec<String>)
    ensures
        final(out)@ == old(out)@ + enc_args(args.deep_view()),
{
    let ghost av = args.deep_view();
    proof {
        assert(av.skip(0) =~= av);
    }
    let n = args.len();
    let mut i: usize = 0;
    while i < n
        invariant
            i <= n,
            n == args.len(),
            av == args.deep_view(),
            old(out)@ + enc_args(av) == out@ + enc_args(av.skip(i as int)),
        decreases n - i,
    {
        let ghost pre = out@;
        out.push('a');
        push_str_enc(out, args[i].as_str());
        proof {
            assert(av[i as int] == args@[i as int]@);
            assert(av.skip(i as int)[0] == av[i as int]);
            assert(av.skip(i as int).drop_first() =~= av.skip(i + 1));
            assert(enc_args(av.skip(i as int)) =~= seq!['a'] + enc_str(av[i as int]) + enc_args(
                av.skip(i + 1)));
            assert(pre + enc_args(av.skip(i as int)) =~= out@ + enc_args(av.skip(i + 1)));
        }
        i += 1;
    }
    out.push('e');
    proof {
        assert(av.skip(n as int) =~= Seq::<Seq<char>>::empty());
        assert(out@ =~= old(out)@ + enc_args(av));
    }
}

/// Encode a job record for the store.
pub fn encode_job(job: &Job) -> (r: String)
    ensures
        r@ == enc_job(job@),
{
    let mut out: Vec<char> = Vec::new();
    push_str_enc(&mut out, job.id.as_str());
    push_status_enc(&mut out, &job.status);
    push_args_enc(&mut out, &job.args);
    proof {
        assert(out@ =~= enc_job(job@));
    }
    chars_to_string(out)
}

// ---------------------------------------------------------------------------
// Executable parsing
// ---------------------------------------------------------------------------

/// The unconsumed part of the input from position `i` on.
pub open spec fn suffix(s: Seq<char>, i: int) -> Seq<char> {
    s.subrange(i, s.len() as int)
}

/// The characters of a string slice, in order.
fn str_to_chars(s: &str) -> (r: Vec<char>)
    ensures
        r@ == s@,
{
    let n = s.unicode_len();
    let mut r: Vec<char> = Vec::new();
    let mut i: usize = 0;
    while i < n
        invariant
            i <= n,
            n == s@.len(),
            r@ == s@.subrange(0, i as int),
        decreases n - i,
    {
        r.push(s.get_char(i));
        proof {
            assert(s@.subrange(0, i + 1) =~= s@.subrange(0, i as int).push(s@[i as int]));
        }
        i += 1;
    }
    proof {
        assert(s@.subrange(0, n as int) =~= s@);
    }
    r
}

/// Parse one encoded string starting at `pos`; on success, the string and the
/// position of the first unconsumed character.
fn read_str(v: &Vec<char>, pos: usize) -> (r: Option<(String, usize)>)
    requires
        pos <= v.len(),
    ensures
        match r {
            Some(p) => pos < p.1 <= v@.len() && dec_str(suffix(v@, pos as int)) == Some(
                (p.0@, suffix(v@, p.1 as int)),
            ),
            None => dec_str(suffix(v@, pos as int)) is None,
        },
{
    let mut out: Vec<char> = Vec::new();
    let mut i: usize = pos;
    proof {
        match dec_str(suffix(v@, pos as int)) {
            Some(p) => {
                assert(out@ + p.0 =~= p.0);
            },
            None => {},
        }
    }
    while i < v.len()
        invariant
            pos <= i <= v.len(),
            match dec_str(suffix(v@, i as int)) {
                Some(p) => dec_str(suffix(v@, pos as int)) == Some((out@ + p.0, p.1)),
                None => dec_str(suffix(v@, pos as int)) is None,
            },
        decreases v.len() - i,
    {
        let c = v[i];
        proof {
            assert(suffix(v@, i as int)[0] == v@[i as int]);
        }
        if c == ';' {
            proof {
                assert(suffix(v@, i as int).drop_first() =~= suffix(v@, i + 1));
                assert(dec_str(suffix(v@, i as int)) == Some(
                    (Seq::<char>::empty(), suffix(v@, i + 1)),
                ));
                assert(out@ + Seq::<char>::empty() =~= out@);
            }
            return Some((chars_to_string(out), i + 1));
        } else if c == '\\' {
            if i + 1 >= v.len() {
                proof {
                    assert(suffix(v@, i as int).len() < 2);
                }
                return None;
            }
            let c2 = v[i + 1];
            let ghost prev = out@;
            out.push(c2);
            proof {
                let cur = suffix(v@, i as int);
                assert(cur[1] == v@[i + 1]);
                assert(cur.subrange(2, cur.len() as int) =~= suffix(v@, i + 2));
                match dec_str(suffix(v@, i + 2)) {
                    Some(q) => {
                        assert(dec_str(cur) == Some((seq![c2] + q.0, q.1)));
                        assert(prev + (seq![c2] + q.0) =~= out@ + q.0);
                    },
                    None => {},
                }
            }
            i += 2;
        } else {
            let ghost prev = out@;
            out.push(c);
            proof {
                let cur = suffix(v@, i as int);
                assert(cur.drop_first() =~= suffix(v@, i + 1));
                match dec_str(suffix(v@, i + 1)) {
                    Some(q) => {
                        assert(dec_str(cur) == Some((seq![c] + q.0, q.1)));
                        assert(prev + (seq![c] + q.0) =~= out@ + q.0);
                    },
                    None => {},
                }
            }
            i += 1;
        }
    }
    proof {
        assert(suffix(v@, i as int).len() == 0);
    }
    None
}

/// Parse one encoded optional payload starting at `pos`.
fn read_opt(v: &Vec<char>, pos: usize) -> (r: Option<(Option<String>, usize)>)
    requires
        pos <= v.len(),
    ensures
        match r {
            Some(p) => pos < p.1 <= v@.len() && dec_opt(suffix(v@, pos as int)) == Some(
                (opt_view(p.0), suffix(v@, p.1 as int)),
            ),
            None => dec_opt(suffix(v@, pos as int)) is None,
        },
{
    if pos >= v.len() {
        return None;
    }
    let c = v[pos];
    proof {
        assert(suffix(v@, pos as int)[0] == v@[pos as int]);
    }
    if c == 'n' {
        proof {
            assert(suffix(v@, pos as int).drop_first() =~= suffix(v@, pos + 1));
        }
        Some((None, pos + 1))
    } else if c == 's' {
        proof {
            assert(suffix(v@, pos as int).drop_first() =~= suffix(v@, pos + 1));
        }
        match read_str(v, pos + 1) {
            Some(p) => Some((Some(p.0), p.1)),
            None => None,
        }
    } else {
        None
    }
}

/// Parse one encoded status starting at `pos`.
fn read_status(v: &Vec<char>, pos: usize) -> (r: Option<(Status, usize)>)
    requires
        pos <= v.len(),
    ensures
        match r {
            Some(p) => pos < p.1 <= v@.len() && dec_status(suffix(v@, pos as int)) == Some(
                (p.0@, suffix(v@, p.1 as int)),
            ),
            None => dec_status(suffix(v@, pos as int)) is None,
        },
{
    if pos >= v.len() {
        return None;
    }
    let c = v[pos];
    proof {
        assert(suffix(v@, pos as int)[0] == v@[pos as int]);
        assert(suffix(v@, pos as int).drop_first() =~= suffix(v@, pos + 1));
    }
    if c == 'Q' {
        Some((Status::QUEUED, pos + 1))
    } else if c == 'L' {
        Some((Status::LOST, pos + 1))
    } else if c == 'R' {
        match read_opt(v, pos + 1) {
            Some(p) => Some((Status::RUNNING(p.0), p.1)),
            None => None,
        }
    } else if c == 'F' {
        match read_opt(v, pos + 1) {
            Some(p) => Some((Status::FINISHED(p.0), p.1)),
            None => None,
        }
    } else if c == 'E' {
        match read_str(v, pos + 1) {
            Some(m) => match read_str(v, m.1) {
                Some(b) => Some((Status::FAILED { message: m.0, backtrace: b.0 }, b.1)),
                None => None,
            },
            None => None,
        }
    } else {
        None
    }
}

/// Parse one encoded argument list starting at `pos`.
fn read_args(v: &Vec<char>, pos: usize) -> (r: Option<(Vec<String>, usize)>)
    requires
        pos <= v.len(),
    ensures
        match r {
            Some(p) => pos < p.1 <= v@.len() && dec_args(suffix(v@, pos as int)) == Some(
                (p.0.deep_view(), suffix(v@, p.1 as int)),
            ),
            None => dec_args(suffix(v@, pos as int)) is None,
        },
{
    let mut out: Vec<String> = Vec::new();
    let mut i: usize = pos;
    proof {
        match dec_args(suffix(v@, pos as int)) {
            Some(p) => {
                assert(out.deep_view() + p.0 =~= p.0);
            },
            None => {},
        }
    }
    while i < v.len()
        invariant
            pos <= i <= v.len(),
            match dec_args(suffix(v@, i as int)) {
                Some(p) => dec_args(suffix(v@, pos as int)) == Some((out.deep_view() + p.0, p.1)),
                None => dec_args(suffix(v@, pos as int)) is None,
            },
        decreases v.len() - i,
    {
        let c = v[i];
        proof {
            assert(suffix(v@, i as int)[0] == v@[i as int]);
        }
        if c == 'e' {
            proof {
                assert(suffix(v@, i as int).drop_first() =~= suffix(v@, i + 1));
                assert(out.deep_view() + Seq::<Seq<char>>::empty() =~= out.deep_view());
            }
            return Some((out, i + 1));
        } else if c == 'a' {
            proof {
                assert(suffix(v@, i as int).drop_first() =~= suffix(v@, i + 1));
            }
            match read_str(v, i + 1) {
                Some(p) => {
                    let ghost prev = out.deep_view();
                    let (s, next) = p;
                    out.push(s);
                    proof {
                        assert(out.deep_view() =~= prev.push(s@));
                        match dec_args(suffix(v@, next as int)) {
                            Some(q) => {
                                assert(dec_args(suffix(v@, i as int)) == Some(
                                    (seq![s@] + q.0, q.1),
                                ));
                                assert(prev + (seq![s@] + q.0) =~= out.deep_view() + q.0);
                            },
                            None => {},
                        }
                    }
                    i = next;
                },
                None => {
                    return None;
                },
            }
        } else {
            return None;
        }
    }
    proof {
        assert(suffix(v@, i as int).len() == 0);
    }
    None
}

/// Decode a job record as read from the store; `None` on any input that is
/// not a whole encoded record.
pub fn decode_job(s: &str) -> (r: Option<Job>)
    ensures
        match r {
            Some(j) => dec_job(s@) == Some(j@),
            None => dec_job(s@) is None,
        },
{
    let v = str_to_chars(s);
    proof {
        assert(suffix(v@, 0) =~= s@);
    }
    let idp = match read_str(&v, 0) {
        Some(p) => p,
        None => {
            return None;
        },
    };
    let stp = match read_status(&v, idp.1) {
        Some(p) => p,
        None => {
            return None;
        },
    };
    let ap = match read_args(&v, stp.1) {
        Some(p) => p,
        None => {
            return None;
        },
    };
    if ap.1 != v.len() {
        proof {
            assert(suffix(v@, ap.1 as int).len() > 0);
        }
        return None;
    }
    let j = Job { id: idp.0, status: stp.0, args: ap.0 };
    Some(j)
}

} // verus!
