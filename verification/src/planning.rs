//! Download plan (packages × leadtimes) for one AROME-OM run, and the rule
//! that decides whether a partially failed run still counts as a success.

use vstd::prelude::*;

verus! {

/// AROME-OM packages (all surface fields).
#[derive(Debug, Clone, Copy, PartialEq, Eq, Structural)]
pub enum Package {
    Sp1,
    Sp2,
    Sp3,
}

/// API identifier of a package, as it appears in the URL path.
pub open spec fn package_api_id(p: Package) -> Seq<char> {
    match p {
        Package::Sp1 => seq!['S', 'P', '1'],
        Package::Sp2 => seq!['S', 'P', '2'],
        Package::Sp3 => seq!['S', 'P', '3'],
    }
}

impl Package {
    /// Identifier expected by the API in the URL path (`packages/<id>`).
    pub fn as_api_id(&self) -> (r: &'static str)
        ensures
            r@ == package_api_id(*self),
    {
        match self {
            Package::Sp1 => {
                proof {
                    reveal_strlit("SP1");
                }
                "SP1"
            },
            Package::Sp2 => {
                proof {
                    reveal_strlit("SP2");
                }
                "SP2"
            },
            Package::Sp3 => {
                proof {
                    reveal_strlit("SP3");
                }
                "SP3"
            },
        }
    }
    /// The API identifier as a new string (the text `Display` writes).
    pub fn api_id_string(&self) -> (r: String)
        ensures
            r@ == package_api_id(*self),
    {
        String::from_str(self.as_api_id())
    }
}

/// The plan: for each package in order, the leadtimes `0..=horizon_h`.
pub open spec fn plan_spec(horizon_h: u32, packages: Seq<Package>) -> Seq<(Package, u32)> {
    Seq::new(
        (packages.len() * (horizon_h as nat + 1)) as nat,
        |k: int| (packages[k / (horizon_h + 1)], (k % (horizon_h + 1)) as u32),
    )
}

/// Builds the download plan: the cartesian product `packages × leadtimes`,
/// where the leadtimes are the hours `0..=horizon_h` (both ends included).
pub fn build_plan(horizon_h: u32, packages: &[Package]) -> (plan: Vec<(Package, u32)>)
    requires
        packages@.len() * (horizon_h as nat + 1) <= usize::MAX,
    ensures
        plan@ == plan_spec(horizon_h, packages@),
{
    let ghost per: int = horizon_h + 1;
    let mut plan: Vec<(Package, u32)> = Vec::new();
    let mut p: usize = 0;
    while p < packages.len()
        invariant
            0 <= p <= packages@.len(),
            per == horizon_h + 1,
            plan@.len() == p * per,
            forall|k: int|
                0 <= k < plan@.len() ==> #[trigger] plan@[k] == (
                    packages@[k / per],
                    (k % per) as u32,
                ),
        decreases packages@.len() - p,
    {
        let pkg = packages[p];
        let mut lead: u64 = 0;
        let ghost base: int = p * per;
        while lead <= horizon_h as u64
            invariant
                0 <= p < packages@.len(),
                per == horizon_h + 1,
                base == p * per,
                lead <= horizon_h + 1,
                plan@.len() == base + lead,
                pkg == packages@[p as int],
                forall|k: int|
                    0 <= k < plan@.len() ==> #[trigger] plan@[k] == (
                        packages@[k / per],
                        (k % per) as u32,
                    ),
            decreases horizon_h + 1 - lead,
        {
            proof {
                let k = base + lead;
                assert(k / per == p && k % per == lead) by (nonlinear_arith)
                    requires
                        k == p * per + lead,
                        0 <= lead < per,
                        p >= 0,
                ;
            }
            plan.push((pkg, lead as u32));
            lead = lead + 1;
        }
        proof {
            assert((p + 1) * per == p * per + per) by (nonlinear_arith);
        }
        p = p + 1;
    }
    proof {
        assert(plan@ =~= plan_spec(horizon_h, packages@));
    }
    plan
}

/// How many missing **tail** leadtimes are tolerated before the run is
/// considered a hard failure.
pub const MAX_TAIL_FAILURES_TOLERATED: u32 = 6;

/// When a partially failed run is still a success.
pub open spec fn tail_tolerable_spec(
    max_written_leadtime: Option<u32>,
    failed_leadtimes: Seq<u32>,
    max_tail: u32,
) -> bool {
    match max_written_leadtime {
        None => false,
        Some(max_ok) => failed_leadtimes.len() == 0 || (failed_leadtimes.len() <= max_tail
            && forall|i: int|
            0 <= i < failed_leadtimes.len() ==> #[trigger] failed_leadtimes[i] > max_ok),
    }
}

/// Decides whether a partially failed run is treated as a success: only a
/// contiguous tail of failures (every failed leadtime is above the largest
/// written one) is tolerated, and at most `max_tail` of them. Nothing
/// written is always a hard failure.
pub fn tail_failures_are_tolerable(
    max_written_leadtime: Option<u32>,
    failed_leadtimes: &[u32],
    max_tail: u32,
) -> (r: bool)
    ensures
        r == tail_tolerable_spec(max_written_leadtime, failed_leadtimes@, max_tail),
        r ==> max_written_leadtime is Some,
        r ==> forall|i: int|
            0 <= i < failed_leadtimes@.len() ==> failed_leadtimes@[i]
                > max_written_leadtime->0,
        (r && failed_leadtimes@.len() > 0) ==> failed_leadtimes@.len() <= max_tail,
        (max_written_leadtime is Some && forall|i: int|
            0 <= i < failed_leadtimes@.len() ==> failed_leadtimes@[i] > max_written_leadtime->0)
            && failed_leadtimes@.len() <= max_tail ==> r,
{
    let max_ok = match max_written_leadtime {
        None => {
            return false;
        },
        Some(m) => m,
    };
    if failed_leadtimes.len() == 0 {
        return true;
    }
    if failed_leadtimes.len() > max_tail as usize {
        return false;
    }
    let mut i: usize = 0;
    while i < failed_leadtimes.len()
        invariant
            0 <= i <= failed_leadtimes@.len(),
            max_written_leadtime == Some(max_ok),
            forall|j: int| 0 <= j < i ==> #[trigger] failed_leadtimes@[j] > max_ok,
        decreases failed_leadtimes@.len() - i,
    {
        if failed_leadtimes[i] <= max_ok {
            assert(failed_leadtimes@[i as int] <= max_ok);
            return false;
        }
        i = i + 1;
    }
    true
}

/// A run passes exactly when something was written and every failure
/// lies strictly after the largest written leadtime, at most `max_tail` of
/// them: one failed leadtime at or below the largest written one (an
/// interior hole) fails the run, whatever else failed, and so does one
/// failure too many.
pub proof fn tolerated_failures_form_a_short_tail(
    max_written_leadtime: Option<u32>,
    failed_leadtimes: Seq<u32>,
    max_tail: u32,
)
    ensures
        tail_tolerable_spec(max_written_leadtime, failed_leadtimes, max_tail) <==> (
        max_written_leadtime is Some && (failed_leadtimes.len() == 0 || failed_leadtimes.len()
            <= max_tail) && forall|i: int|
            0 <= i < failed_leadtimes.len() ==> failed_leadtimes[i] > max_written_leadtime->0),
        forall|k: int|
            0 <= k < failed_leadtimes.len() && max_written_leadtime is Some
                && failed_leadtimes[k] <= max_written_leadtime->0 ==> !tail_tolerable_spec(
                max_written_leadtime,
                failed_leadtimes,
                max_tail,
            ),
        failed_leadtimes.len() > max_tail ==> !tail_tolerable_spec(
            max_written_leadtime,
            failed_leadtimes,
            max_tail,
        ),
{
}

} // verus!
