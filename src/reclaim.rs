use vstd::prelude::*;

verus! {

/// How long to let the operating system release the socket after the
/// terminations have been issued.
pub const RECLAIM_GRACE_MS: u64 = 500;

/// The contents of a list of byte strings.
pub open spec fn views(v: Seq<Vec<u8>>) -> Seq<Seq<u8>> {
    v.map_values(|x: Vec<u8>| x@)
}

pub open spec fn is_space(b: u8) -> bool {
    b == 0x20u8 || b == 0x09u8 || b == 0x0Au8 || b == 0x0Bu8 || b == 0x0Cu8 || b == 0x0Du8
}

/// Reading `s` left to right: the whitespace-separated tokens completed so
/// far, and the token being read.
pub open spec fn scan_tokens(s: Seq<u8>) -> (Seq<Seq<u8>>, Seq<u8>)
    decreases s.len(),
{
    if s.len() == 0 {
        (Seq::empty(), Seq::empty())
    } else {
        let (done, cur) = scan_tokens(s.drop_last());
        let b = s.last();
        if is_space(b) {
            if cur.len() > 0 {
                (done.push(cur), Seq::empty())
            } else {
                (done, cur)
            }
        } else {
            (done, cur.push(b))
        }
    }
}

/// The maximal runs of non-whitespace bytes of `s`, in order.
pub open spec fn tokens(s: Seq<u8>) -> Seq<Seq<u8>> {
    let (done, cur) = scan_tokens(s);
    if cur.len() > 0 {
        done.push(cur)
    } else {
        done
    }
}

/// `s` with every repeated item dropped after its first occurrence.
pub open spec fn distinct(s: Seq<Seq<u8>>) -> Seq<Seq<u8>>
    decreases s.len(),
{
    if s.len() == 0 {
        s
    } else {
        let rest = distinct(s.drop_last());
        if rest.contains(s.last()) {
            rest
        } else {
            rest.push(s.last())
        }
    }
}

/// Splits `s` into its whitespace-separated tokens.
pub fn split_tokens(s: &[u8]) -> (r: Vec<Vec<u8>>)
    ensures
        views(r@) == tokens(s@),
{
    let mut done: Vec<Vec<u8>> = Vec::new();
    let mut cur: Vec<u8> = Vec::new();
    let mut i: usize = 0;
    while i < s.len()
        invariant
            i <= s@.len(),
            (views(done@), cur@) == scan_tokens(s@.take(i as int)),
        decreases s@.len() - i,
    {
        let b = s[i];
        assert(s@.take(i + 1).drop_last() =~= s@.take(i as int));
        assert(s@.take(i + 1).last() == b);
        if b == 0x20u8 || b == 0x09u8 || b == 0x0Au8 || b == 0x0Bu8 || b == 0x0Cu8 || b == 0x0Du8 {
            if cur.len() > 0 {
                let ghost old_done = done@;
                let ghost old_cur = cur@;
                done.push(cur);
                cur = Vec::new();
                assert(views(done@) =~= views(old_done).push(old_cur));
            }
        } else {
            cur.push(b);
        }
        i = i + 1;
    }
    assert(s@.take(s@.len() as int) =~= s@);
    if cur.len() > 0 {
        let ghost old_done = done@;
        let ghost old_cur = cur@;
        done.push(cur);
        assert(views(done@) =~= views(old_done).push(old_cur));
    }
    done
}

/// Whether two byte strings are equal.
pub fn same_bytes(a: &[u8], b: &[u8]) -> (r: bool)
    ensures
        r == (a@ == b@),
{
    if a.len() != b.len() {
        return false;
    }
    let mut i: usize = 0;
    while i < a.len()
        invariant
            a@.len() == b@.len(),
            i <= a@.len(),
            forall|j: int| 0 <= j < i ==> a@[j] == b@[j],
        decreases a@.len() - i,
    {
        if a[i] != b[i] {
            return false;
        }
        i = i + 1;
    }
    assert(a@ =~= b@);
    true
}

/// Whether `items` holds a byte string equal to `x`.
pub fn contains_bytes(items: &Vec<Vec<u8>>, x: &[u8]) -> (r: bool)
    ensures
        r == views(items@).contains(x@),
{
    let mut i: usize = 0;
    while i < items.len()
        invariant
            i <= items@.len(),
            forall|j: int| 0 <= j < i ==> items@[j]@ != x@,
        decreases items@.len() - i,
    {
        if same_bytes(items[i].as_slice(), x) {
            assert(views(items@)[i as int] == x@);
            return true;
        }
        i = i + 1;
    }
    assert(!views(items@).contains(x@)) by {
        if views(items@).contains(x@) {
            let k = choose|k: int| 0 <= k < views(items@).len() && views(items@)[k] == x@;
            assert(items@[k]@ == x@);
        }
    }
    false
}

/// Drops every repeated item after its first occurrence.
pub fn dedup_bytes(items: Vec<Vec<u8>>) -> (r: Vec<Vec<u8>>)
    ensures
        views(r@) == distinct(views(items@)),
{
    let mut out: Vec<Vec<u8>> = Vec::new();
    let mut i: usize = 0;
    while i < items.len()
        invariant
            i <= items@.len(),
            views(out@) == distinct(views(items@).take(i as int)),
        decreases items@.len() - i,
    {
        let ghost prefix = views(items@).take(i as int + 1);
        assert(prefix.drop_last() =~= views(items@).take(i as int));
        assert(prefix.last() == items@[i as int]@);
        if !contains_bytes(&out, items[i].as_slice()) {
            let ghost old_out = out@;
            out.push(items[i].clone());
            assert(views(out@) =~= views(old_out).push(items@[i as int]@));
        }
        i = i + 1;
    }
    assert(views(items@).take(items@.len() as int) =~= views(items@));
    out
}

/// Reading `s` left to right: the lines completed so far, and the line
/// being read.
pub open spec fn scan_lines(s: Seq<u8>) -> (Seq<Seq<u8>>, Seq<u8>)
    decreases s.len(),
{
    if s.len() == 0 {
        (Seq::empty(), Seq::empty())
    } else {
        let (done, cur) = scan_lines(s.drop_last());
        let b = s.last();
        if b == 0x0Au8 {
            (done.push(cur), Seq::empty())
        } else {
            (done, cur.push(b))
        }
    }
}

/// The lines of `s`, without their newline; a final newline opens no line.
pub open spec fn lines(s: Seq<u8>) -> Seq<Seq<u8>> {
    let (done, cur) = scan_lines(s);
    if cur.len() > 0 {
        done.push(cur)
    } else {
        done
    }
}

/// Splits `s` into its lines.
pub fn split_lines(s: &[u8]) -> (r: Vec<Vec<u8>>)
    ensures
        views(r@) == lines(s@),
{
    let mut done: Vec<Vec<u8>> = Vec::new();
    let mut cur: Vec<u8> = Vec::new();
    let mut i: usize = 0;
    while i < s.len()
        invariant
            i <= s@.len(),
            (views(done@), cur@) == scan_lines(s@.take(i as int)),
        decreases s@.len() - i,
    {
        let b = s[i];
        assert(s@.take(i + 1).drop_last() =~= s@.take(i as int));
        assert(s@.take(i + 1).last() == b);
        if b == 0x0Au8 {
            let ghost old_done = done@;
            let ghost old_cur = cur@;
            done.push(cur);
            cur = Vec::new();
            assert(views(done@) =~= views(old_done).push(old_cur));
        } else {
            cur.push(b);
        }
        i = i + 1;
    }
    assert(s@.take(s@.len() as int) =~= s@);
    if cur.len() > 0 {
        let ghost old_done = done@;
        let ghost old_cur = cur@;
        done.push(cur);
        assert(views(done@) =~= views(old_done).push(old_cur));
    }
    done
}

/// Whether `pat` occurs in `s` at position `i`.
pub open spec fn occurs_at(s: Seq<u8>, pat: Seq<u8>, i: int) -> bool {
    0 <= i && i + pat.len() <= s.len() && s.subrange(i, i + pat.len()) == pat
}

/// Whether `pat` occurs somewhere in `s`.
pub open spec fn occurs_in(s: Seq<u8>, pat: Seq<u8>) -> bool {
    exists|i: int| occurs_at(s, pat, i)
}

/// Whether `pat` occurs in `s`.
pub fn contains_sub(s: &[u8], pat: &[u8]) -> (r: bool)
    ensures
        r == occurs_in(s@, pat@),
{
    if pat.len() > s.len() {
        assert(!occurs_in(s@, pat@));
        return false;
    }
    if pat.len() == 0 {
        assert(s@.subrange(0, 0) =~= pat@);
        assert(occurs_at(s@, pat@, 0));
        return true;
    }
    let last: usize = s.len() - pat.len();
    let mut i: usize = 0;
    while i <= last
        invariant
            last == s@.len() - pat@.len(),
            1 <= pat@.len() <= s@.len() <= usize::MAX,
            i <= last + 1,
            forall|k: int| 0 <= k < i ==> !occurs_at(s@, pat@, k),
        decreases last + 1 - i,
    {
        let mut j: usize = 0;
        let mut matched = true;
        while j < pat.len()
            invariant
                last == s@.len() - pat@.len(),
                1 <= pat@.len() <= s@.len() <= usize::MAX,
                i <= last,
                j <= pat@.len(),
                matched ==> forall|t: int| 0 <= t < j ==> s@[i + t] == pat@[t],
                !matched ==> !occurs_at(s@, pat@, i as int),
            decreases pat@.len() - j,
        {
            if s[i + j] != pat[j] {
                matched = false;
                assert(s@.subrange(i as int, i + pat@.len())[j as int] != pat@[j as int]);
            }
            j = j + 1;
        }
        if matched {
            assert(s@.subrange(i as int, i + pat@.len()) =~= pat@);
            assert(occurs_at(s@, pat@, i as int));
            return true;
        }
        i = i + 1;
    }
    assert(!occurs_in(s@, pat@)) by {
        if occurs_in(s@, pat@) {
            let k = choose|k: int| occurs_at(s@, pat@, k);
            assert(k < i);
        }
    }
    false
}

/// The decimal digits of `n`, most significant first, without leading zeros.
pub open spec fn decimal(n: nat) -> Seq<u8>
    decreases n,
{
    if n < 10 {
        seq![(n + 0x30) as u8]
    } else {
        decimal(n / 10).push((n % 10 + 0x30) as u8)
    }
}

/// Appends the decimal digits of `n` to `out`.
pub fn push_decimal(n: u16, out: &mut Vec<u8>)
    ensures
        final(out)@ == old(out)@ + decimal(n as nat),
    decreases n,
{
    if n >= 10 {
        push_decimal(n / 10, out);
    }
    let d: u8 = (n % 10) as u8;
    let ghost before = out@;
    out.push(d + 0x30u8);
    if n >= 10 {
        assert(out@ =~= old(out)@ + decimal(n as nat));
    } else {
        assert(out@ =~= old(out)@ + decimal(n as nat));
    }
}

/// The marker of a local address on `port` in a connection table: `:` and
/// the port in decimal.
pub open spec fn port_marker(port: u16) -> Seq<u8> {
    seq![0x3Au8] + decimal(port as nat)
}

/// The state word of a listening socket in a connection table.
pub open spec fn listening_word() -> Seq<u8> {
    seq![0x4Cu8, 0x49u8, 0x53u8, 0x54u8, 0x45u8, 0x4Eu8, 0x49u8, 0x4Eu8, 0x47u8]
}

/// The process id that a connection-table line names for a listener on
/// `port`: the line's last token, when the line holds both the port marker
/// and the listening state.
pub open spec fn listener_of(line: Seq<u8>, port: u16) -> Option<Seq<u8>> {
    if occurs_in(line, port_marker(port)) && occurs_in(line, listening_word()) && tokens(
        line,
    ).len() > 0 {
        Some(tokens(line).last())
    } else {
        None
    }
}

/// The process ids, in order of their lines, of the listeners on `port`.
pub open spec fn listeners(ls: Seq<Seq<u8>>, port: u16) -> Seq<Seq<u8>>
    decreases ls.len(),
{
    if ls.len() == 0 {
        Seq::empty()
    } else {
        let rest = listeners(ls.drop_last(), port);
        match listener_of(ls.last(), port) {
            Some(pid) => rest.push(pid),
            None => rest,
        }
    }
}

/// Process termination and grace period of one port reclamation.
pub struct ReclaimPlan {
    /// Process ids to terminate forcefully, each once.
    pub targets: Vec<Vec<u8>>,
    /// Milliseconds to wait after the terminations.
    pub grace_ms: u64,
}

/// The plan that terminates exactly the processes in `pids`: it waits the
/// grace period only when there is something to terminate.
pub open spec fn plan_matches(plan: ReclaimPlan, pids: Seq<Seq<u8>>) -> bool {
    &&& views(plan.targets@) == pids
    &&& plan.grace_ms == (if pids.len() > 0 { RECLAIM_GRACE_MS } else { 0 })
}

fn plan_for(pids: Vec<Vec<u8>>) -> (r: ReclaimPlan)
    ensures
        plan_matches(r, views(pids@)),
{
    let grace_ms: u64 = if pids.len() > 0 { RECLAIM_GRACE_MS } else { 0 };
    ReclaimPlan { targets: pids, grace_ms }
}

/// Plan from the output of a query that lists, one per line, the ids of the
/// processes bound to the port (`lsof -ti :<port>`). A failed query, or
/// one that lists nothing, finds nothing to terminate.
pub fn plan_from_pid_list(succeeded: bool, stdout: &[u8]) -> (r: ReclaimPlan)
    ensures
        plan_matches(
            r,
            if succeeded {
                distinct(tokens(stdout@))
            } else {
                Seq::empty()
            },
        ),
{
    if !succeeded {
        let none: Vec<Vec<u8>> = Vec::new();
        assert(views(none@) =~= Seq::<Seq<u8>>::empty());
        return plan_for(none);
    }
    let toks = split_tokens(stdout);
    let pids = dedup_bytes(toks);
    plan_for(pids)
}

/// The ids of the processes listening on `port` according to a connection
/// table (`netstat -ano`), each once, in order of first appearance.
pub fn listening_pids(table: &[u8], port: u16) -> (r: Vec<Vec<u8>>)
    ensures
        views(r@) == distinct(listeners(lines(table@), port)),
{
    let mut marker: Vec<u8> = vec![0x3Au8];
    push_decimal(port, &mut marker);
    assert(marker@ =~= port_marker(port));
    let word: Vec<u8> = vec![0x4Cu8, 0x49u8, 0x53u8, 0x54u8, 0x45u8, 0x4Eu8, 0x49u8, 0x4Eu8, 0x47u8];
    assert(word@ =~= listening_word());
    let ls = split_lines(table);
    let mut found: Vec<Vec<u8>> = Vec::new();
    let mut i: usize = 0;
    while i < ls.len()
        invariant
            i <= ls@.len(),
            marker@ == port_marker(port),
            word@ == listening_word(),
            views(found@) == listeners(views(ls@).take(i as int), port),
        decreases ls@.len() - i,
    {
        let line = ls[i].as_slice();
        let ghost prefix = views(ls@).take(i as int + 1);
        assert(prefix.drop_last() =~= views(ls@).take(i as int));
        assert(prefix.last() == line@);
        if contains_sub(line, marker.as_slice()) && contains_sub(line, word.as_slice()) {
            let toks = split_tokens(line);
            if toks.len() > 0 {
                let ghost old_found = found@;
                let last = toks[toks.len() - 1].clone();
                found.push(last);
                assert(views(found@) =~= views(old_found).push(tokens(line@).last()));
            }
        }
        i = i + 1;
    }
    assert(views(ls@).take(ls@.len() as int) =~= views(ls@));
    dedup_bytes(found)
}

/// Plan from a connection table (`netstat -ano`): terminate each process
/// listening on `port` once. A failed query finds nothing to terminate.
pub fn plan_from_connection_table(succeeded: bool, table: &[u8], port: u16) -> (r: ReclaimPlan)
    ensures
        plan_matches(
            r,
            if succeeded {
                distinct(listeners(lines(table@), port))
            } else {
                Seq::empty()
            },
        ),
{
    if !succeeded {
        let none: Vec<Vec<u8>> = Vec::new();
        assert(views(none@) =~= Seq::<Seq<u8>>::empty());
        return plan_for(none);
    }
    plan_for(listening_pids(table, port))
}

proof fn lemma_scan_word(w: Seq<u8>)
    requires
        forall|i: int| 0 <= i < w.len() ==> !is_space(w[i]),
    ensures
        scan_tokens(w) == (Seq::<Seq<u8>>::empty(), w),
    decreases w.len(),
{
    if w.len() > 0 {
        lemma_scan_word(w.drop_last());
        assert(w.drop_last().push(w.last()) =~= w);
    }
}

/// When the query finds no process on the port (it failed, or listed
/// nothing), nothing is terminated and no grace period is waited.
pub proof fn lemma_free_port_no_wait(plan: ReclaimPlan, succeeded: bool, stdout: Seq<u8>)
    requires
        plan_matches(
            plan,
            if succeeded {
                distinct(tokens(stdout))
            } else {
                Seq::empty()
            },
        ),
        !succeeded || forall|i: int| 0 <= i < stdout.len() ==> is_space(stdout[i]),
    ensures
        plan.targets@.len() == 0,
        plan.grace_ms == 0,
{
    if succeeded {
        lemma_scan_blank(stdout);
        assert(tokens(stdout).len() == 0);
        assert(distinct(tokens(stdout)) =~= Seq::<Seq<u8>>::empty());
    }
}

proof fn lemma_scan_blank(s: Seq<u8>)
    requires
        forall|i: int| 0 <= i < s.len() ==> is_space(s[i]),
    ensures
        scan_tokens(s) == (Seq::<Seq<u8>>::empty(), Seq::<u8>::empty()),
    decreases s.len(),
{
    if s.len() > 0 {
        lemma_scan_blank(s.drop_last());
    }
}

/// When the query lists exactly one process id `pid` (followed by a newline),
/// exactly that process is terminated, then the grace period is waited.
pub proof fn lemma_single_process_terminated(plan: ReclaimPlan, pid: Seq<u8>)
    requires
        pid.len() > 0,
        forall|i: int| 0 <= i < pid.len() ==> !is_space(pid[i]),
        plan_matches(plan, distinct(tokens(pid.push(0x0Au8)))),
    ensures
        views(plan.targets@) == seq![pid],
        plan.grace_ms == RECLAIM_GRACE_MS,
{
    let out = pid.push(0x0Au8);
    lemma_scan_word(pid);
    assert(out.drop_last() =~= pid);
    assert(scan_tokens(out) == (seq![pid], Seq::<u8>::empty()));
    assert(tokens(out) == seq![pid]);
    let one = seq![pid];
    assert(one.drop_last() =~= Seq::<Seq<u8>>::empty());
    assert(distinct(one.drop_last()) =~= Seq::<Seq<u8>>::empty());
    assert(distinct(one) =~= seq![pid]);
}

} // verus!
