use vstd::prelude::*;
use vstd::string::StringExecFns;
use vstd::string::StringSliceAdditionalSpecFns;
use vstd::utf8::encode_utf8;

use crate::errors::XcodeError;

verus! {

// Simulator discovery: the device list itself comes from the platform
// toolchain as JSON and is flattened to plain records outside the library;
// choosing which simulator to drive is pure and is verified here.

/// Information about one simulator device.
#[derive(Debug)]
pub struct Simulator {
    /// Unique device identifier.
    pub udid: String,
    /// Device name.
    pub name: String,
    /// Runtime, such as an OS name and version.
    pub runtime: String,
    /// Current state, such as `Booted`.
    pub state: String,
    /// Whether the device is available to boot.
    pub is_available: bool,
}

impl Clone for Simulator {
    fn clone(&self) -> (r: Self)
        ensures
            r == *self,
    {
        Simulator {
            udid: self.udid.clone(),
            name: self.name.clone(),
            runtime: self.runtime.clone(),
            state: self.state.clone(),
            is_available: self.is_available,
        }
    }
}

/// The device list handed back to callers.
#[derive(Debug)]
pub struct SimulatorListResponse {
    pub simulators: Vec<Simulator>,
}

/// A request to boot a simulator, install an app bundle and launch it.
#[derive(Debug)]
pub struct InstallAndLaunchRequest {
    pub udid: String,
    pub app_path: String,
    pub bundle_id: Option<String>,
}

/// The outcome of an install-and-launch request.
#[derive(Debug)]
pub struct InstallAndLaunchResponse {
    pub success: bool,
    pub message: String,
}

/// Does the simulator's name begin with these bytes?
pub open spec fn name_has_prefix(s: Simulator, p: Seq<u8>) -> bool {
    let b = encode_utf8(s.name@);
    p.len() <= b.len() && b.subrange(0, p.len() as int) == p
}

/// Index of the first simulator whose name begins with `p`, or `-1`.
pub open spec fn first_idx_with_prefix(sims: Seq<Simulator>, p: Seq<u8>) -> int
    decreases sims.len(),
{
    if sims.len() == 0 {
        -1
    } else if name_has_prefix(sims.first(), p) {
        0
    } else {
        let r = first_idx_with_prefix(sims.drop_first(), p);
        if r < 0 {
            -1
        } else {
            r + 1
        }
    }
}

/// Which simulator a stream request should drive when none was named: the
/// newest-generation phone first, then any phone, then whatever is first.
pub open spec fn default_simulator_idx(sims: Seq<Simulator>) -> int {
    let a = first_idx_with_prefix(sims, "iPhone 16".spec_bytes());
    let b = first_idx_with_prefix(sims, "iPhone 15".spec_bytes());
    let c = first_idx_with_prefix(sims, "iPhone 14".spec_bytes());
    let d = first_idx_with_prefix(sims, "iPhone".spec_bytes());
    if a >= 0 {
        a
    } else if b >= 0 {
        b
    } else if c >= 0 {
        c
    } else if d >= 0 {
        d
    } else if sims.len() > 0 {
        0
    } else {
        -1
    }
}

fn find_with_prefix(sims: &Vec<Simulator>, p: &[u8]) -> (r: Option<usize>)
    ensures
        match r {
            Some(i) => first_idx_with_prefix(sims@, p@) == i as int && i < sims@.len(),
            None => first_idx_with_prefix(sims@, p@) == -1,
        },
{
    let n = sims.len();
    let mut i: usize = 0;
    while i < n
        invariant
            i <= n,
            n == sims@.len(),
            forall|k: int| 0 <= k < i ==> !name_has_prefix(#[trigger] sims@[k], p@),
        decreases n - i,
    {
        if crate::text::starts_with_bytes(sims[i].name.as_str().as_bytes(), p) {
            proof {
                lemma_first_idx_is(sims@, p@, i as int);
            }
            return Some(i);
        }
        i = i + 1;
    }
    proof {
        lemma_first_idx_none(sims@, p@);
    }
    None
}

proof fn lemma_first_idx_is(sims: Seq<Simulator>, p: Seq<u8>, i: int)
    requires
        0 <= i < sims.len(),
        name_has_prefix(sims[i], p),
        forall|k: int| 0 <= k < i ==> !name_has_prefix(#[trigger] sims[k], p),
    ensures
        first_idx_with_prefix(sims, p) == i,
    decreases sims.len(),
{
    if i == 0 {
    } else {
        assert(!name_has_prefix(sims[0], p));
        assert(sims.first() == sims[0]);
        assert forall|k: int| 0 <= k < i - 1 implies !name_has_prefix(
            #[trigger] sims.drop_first()[k],
            p,
        ) by {
            assert(sims.drop_first()[k] == sims[k + 1]);
        }
        assert(sims.drop_first()[i - 1] == sims[i]);
        lemma_first_idx_is(sims.drop_first(), p, i - 1);
    }
}

proof fn lemma_first_idx_none(sims: Seq<Simulator>, p: Seq<u8>)
    requires
        forall|k: int| 0 <= k < sims.len() ==> !name_has_prefix(#[trigger] sims[k], p),
    ensures
        first_idx_with_prefix(sims, p) == -1,
    decreases sims.len(),
{
    if sims.len() > 0 {
        assert(sims.first() == sims[0]);
        assert forall|k: int| 0 <= k < sims.drop_first().len() implies !name_has_prefix(
            #[trigger] sims.drop_first()[k],
            p,
        ) by {
            assert(sims.drop_first()[k] == sims[k + 1]);
        }
        lemma_first_idx_none(sims.drop_first(), p);
    }
}

/// Picks the default simulator from an already-listed device set, preferring
/// recent phone models; the only failure is an empty list.
pub fn find_default_simulator(simulators: &Vec<Simulator>) -> (r: Result<Simulator, XcodeError>)
    ensures
        (r is Ok) == (simulators@.len() > 0),
        r matches Ok(s) ==> s == simulators@[default_simulator_idx(simulators@)],
        r matches Err(e) ==> e is SimulatorError,
{
    match find_with_prefix(simulators, "iPhone 16".as_bytes()) {
        Some(i) => {
            return Ok(simulators[i].clone());
        },
        None => {},
    }
    match find_with_prefix(simulators, "iPhone 15".as_bytes()) {
        Some(i) => {
            return Ok(simulators[i].clone());
        },
        None => {},
    }
    match find_with_prefix(simulators, "iPhone 14".as_bytes()) {
        Some(i) => {
            return Ok(simulators[i].clone());
        },
        None => {},
    }
    match find_with_prefix(simulators, "iPhone".as_bytes()) {
        Some(i) => {
            return Ok(simulators[i].clone());
        },
        None => {},
    }
    if simulators.len() > 0 {
        Ok(simulators[0].clone())
    } else {
        Err(XcodeError::SimulatorError(String::from_str("no simulators found")))
    }
}

/// Is the device already running?
pub open spec fn booted(s: Simulator) -> bool {
    s.state@ == "Booted"@
}

/// Byte-wise lexicographic order, as the standard string order compares.
pub open spec fn lex_le(a: Seq<u8>, b: Seq<u8>) -> bool
    decreases a.len(),
{
    if a.len() == 0 {
        true
    } else if b.len() == 0 {
        false
    } else if a.first() < b.first() {
        true
    } else if a.first() > b.first() {
        false
    } else {
        lex_le(a.drop_first(), b.drop_first())
    }
}

pub proof fn lemma_lex_le_total(a: Seq<u8>, b: Seq<u8>)
    ensures
        lex_le(a, b) || lex_le(b, a),
    decreases a.len(),
{
    if a.len() > 0 && b.len() > 0 && a.first() == b.first() {
        lemma_lex_le_total(a.drop_first(), b.drop_first());
    }
}

pub proof fn lemma_lex_le_trans(a: Seq<u8>, b: Seq<u8>, c: Seq<u8>)
    requires
        lex_le(a, b),
        lex_le(b, c),
    ensures
        lex_le(a, c),
    decreases a.len(),
{
    if a.len() > 0 && b.len() > 0 && c.len() > 0 && a.first() == b.first() && b.first()
        == c.first() {
        lemma_lex_le_trans(a.drop_first(), b.drop_first(), c.drop_first());
    }
}

/// The listing order: booted devices first, then by name.
pub open spec fn sim_le(a: Simulator, b: Simulator) -> bool {
    if booted(a) != booted(b) {
        booted(a)
    } else {
        lex_le(encode_utf8(a.name@), encode_utf8(b.name@))
    }
}

pub proof fn lemma_sim_le_total(a: Simulator, b: Simulator)
    ensures
        sim_le(a, b) || sim_le(b, a),
{
    lemma_lex_le_total(encode_utf8(a.name@), encode_utf8(b.name@));
}

pub proof fn lemma_sim_le_trans(a: Simulator, b: Simulator, c: Simulator)
    requires
        sim_le(a, b),
        sim_le(b, c),
    ensures
        sim_le(a, c),
{
    if booted(a) == booted(b) && booted(b) == booted(c) {
        lemma_lex_le_trans(
            encode_utf8(a.name@),
            encode_utf8(b.name@),
            encode_utf8(c.name@),
        );
    }
}

fn lex_le_exec(a: &[u8], b: &[u8]) -> (r: bool)
    ensures
        r == lex_le(a@, b@),
    decreases a@.len(),
{
    if a.len() == 0 {
        true
    } else if b.len() == 0 {
        false
    } else {
        let x = *vstd::slice::slice_index_get(a, 0);
        let y = *vstd::slice::slice_index_get(b, 0);
        if x < y {
            true
        } else if x > y {
            false
        } else {
            let n = a.len();
            let m = b.len();
            proof {
                assert(a@.subrange(1, n as int) =~= a@.drop_first());
                assert(b@.subrange(1, m as int) =~= b@.drop_first());
            }
            lex_le_exec(
                vstd::slice::slice_subrange(a, 1, n),
                vstd::slice::slice_subrange(b, 1, m),
            )
        }
    }
}

fn sim_le_exec(a: &Simulator, b: &Simulator, booted_state: &String) -> (r: bool)
    requires
        booted_state@ == "Booted"@,
    ensures
        r == sim_le(*a, *b),
{
    let a_booted = a.state.eq(booted_state);
    let b_booted = b.state.eq(booted_state);
    if a_booted != b_booted {
        a_booted
    } else {
        lex_le_exec(a.name.as_str().as_bytes(), b.name.as_str().as_bytes())
    }
}

/// Orders a device list for display: booted devices first, then by name; the
/// result holds exactly the given devices.
pub fn sort_simulators(sims: &Vec<Simulator>) -> (r: Vec<Simulator>)
    ensures
        forall|p: int, q: int|
            0 <= p < q < r@.len() ==> sim_le(#[trigger] r@[p], #[trigger] r@[q]),
        r@.to_multiset() == sims@.to_multiset(),
{
    broadcast use vstd::seq_lib::group_to_multiset_ensures;

    let booted_state = String::from_str("Booted");
    let mut out: Vec<Simulator> = Vec::new();
    let n = sims.len();
    let mut i: usize = 0;
    proof {
        assert(sims@.subrange(0, 0) =~= Seq::<Simulator>::empty());
        assert(out@.to_multiset() =~= sims@.subrange(0, 0).to_multiset());
    }
    while i < n
        invariant
            i <= n,
            n == sims@.len(),
            booted_state@ == "Booted"@,
            forall|p: int, q: int|
                0 <= p < q < out@.len() ==> sim_le(#[trigger] out@[p], #[trigger] out@[q]),
            out@.to_multiset() == sims@.subrange(0, i as int).to_multiset(),
        decreases n - i,
    {
        let x = sims[i].clone();
        let mut k: usize = 0;
        while k < out.len() && !sim_le_exec(&x, &out[k], &booted_state)
            invariant
                k <= out@.len(),
                booted_state@ == "Booted"@,
                x == sims@[i as int],
                forall|j: int| 0 <= j < k ==> !sim_le(x, #[trigger] out@[j]),
            decreases out@.len() - k,
        {
            k = k + 1;
        }
        let ghost old_out = out@;
        let ghost ki = k as int;
        out.insert(k, x);
        proof {
            broadcast use vstd::seq_lib::group_to_multiset_ensures;

            let new_out = out@;
            assert(new_out == old_out.insert(ki, x));
            // The inserted sequence keeps the pairwise order.
            assert forall|p: int, q: int|
                0 <= p < q < new_out.len() implies sim_le(
                #[trigger] new_out[p],
                #[trigger] new_out[q],
            ) by {
                if q < ki {
                    assert(sim_le(old_out[p], old_out[q]));
                } else if q == ki {
                    assert(!sim_le(x, old_out[p]));
                    lemma_sim_le_total(x, old_out[p]);
                } else {
                    if p < ki {
                        assert(sim_le(old_out[p], old_out[q - 1]));
                    } else if p == ki {
                        assert(ki < old_out.len());
                        assert(sim_le(x, old_out[ki]));
                        if q - 1 > ki {
                            assert(sim_le(old_out[ki], old_out[q - 1]));
                            lemma_sim_le_trans(x, old_out[ki], old_out[q - 1]);
                        }
                    } else {
                        assert(sim_le(old_out[p - 1], old_out[q - 1]));
                    }
                }
            }
            // The inserted sequence holds one more copy of the new element.
            assert(new_out =~= old_out.subrange(0, k as int) + seq![x] + old_out.subrange(
                k as int,
                old_out.len() as int,
            ));
            vstd::seq_lib::lemma_multiset_commutative(
                old_out.subrange(0, k as int) + seq![x],
                old_out.subrange(k as int, old_out.len() as int),
            );
            vstd::seq_lib::lemma_multiset_commutative(old_out.subrange(0, k as int), seq![x]);
            assert(seq![x] =~= Seq::<Simulator>::empty().push(x));
            assert(old_out =~= old_out.subrange(0, k as int) + old_out.subrange(
                k as int,
                old_out.len() as int,
            ));
            vstd::seq_lib::lemma_multiset_commutative(
                old_out.subrange(0, k as int),
                old_out.subrange(k as int, old_out.len() as int),
            );
            assert(new_out.to_multiset() =~= old_out.to_multiset().insert(x));
            assert(sims@.subrange(0, i as int + 1) =~= sims@.subrange(0, i as int).push(
                sims@[i as int],
            ));
        }
        i = i + 1;
    }
    proof {
        assert(sims@.subrange(0, n as int) =~= sims@);
    }
    out
}

/// The predicate that keeps a device: a non-empty identity and a state other
/// than `Unavailable`.
pub open spec fn usable_pred() -> spec_fn(Simulator) -> bool {
    |s: Simulator| s.udid@.len() > 0 && s.state@ != "Unavailable"@
}

/// Keeps the devices a stream can use, in their original order.
pub fn filter_usable_simulators(sims: Vec<Simulator>) -> (r: Vec<Simulator>)
    ensures
        r@ == sims@.filter(usable_pred()),
{
    let unavailable = String::from_str("Unavailable");
    let mut out: Vec<Simulator> = Vec::new();
    let n = sims.len();
    let mut i: usize = 0;
    proof {
        reveal(Seq::filter);
        assert(sims@.subrange(0, 0).filter(usable_pred()) =~= Seq::<Simulator>::empty());
    }
    while i < n
        invariant
            i <= n,
            n == sims@.len(),
            unavailable@ == "Unavailable"@,
            out@ == sims@.subrange(0, i as int).filter(usable_pred()),
        decreases n - i,
    {
        proof {
            reveal(Seq::filter);
            let pre = sims@.subrange(0, i as int + 1);
            assert(pre.drop_last() =~= sims@.subrange(0, i as int));
            assert(pre.last() == sims@[i as int]);
        }
        let keep = !sims[i].udid.as_str().is_empty() && !sims[i].state.eq(&unavailable);
        if keep {
            out.push(sims[i].clone());
        }
        i = i + 1;
    }
    proof {
        assert(sims@.subrange(0, n as int) =~= sims@);
    }
    out
}

} // verus!
