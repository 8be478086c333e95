//! Where the adapter is staged, and the command lines it is run with.

use vstd::prelude::*;

verus! {

// -------------------------------------------------------------- directory

/// A place where the adapter may be staged.
#[derive(Debug, Clone, Copy, PartialEq, Eq, Structural)]
pub enum AdapterCandidate {
    /// The directory that `ULTRA_MEDIA_REMOTE_ADAPTER_DIR` names.
    Override,
    /// The `mediaremote` directory next to the executable.
    BesideExecutable,
    /// The `Resources/mediaremote` directory of the app bundle that contains
    /// the executable.
    BundleResources,
}

/// What lies in a candidate directory.
#[derive(Debug, Clone, Copy, PartialEq, Eq, Structural)]
pub struct AdapterParts {
    /// Whether `mediaremote-adapter.pl` is a file in it.
    pub script: bool,
    /// Whether `MediaRemoteAdapter.framework` is a directory in it.
    pub framework: bool,
}

impl AdapterParts {
    /// Whether both parts of the adapter are there.
    pub open spec fn complete(self) -> bool {
        self.script && self.framework
    }
}

/// The candidates in order, by which of the directories that they stand in are
/// known: the one that the environment names, the one of the executable, and
/// the parent of that one.
pub open spec fn candidates(
    override_set: bool,
    executable_dir_known: bool,
    contents_dir_known: bool,
) -> Seq<AdapterCandidate> {
    let first = if override_set {
        seq![AdapterCandidate::Override]
    } else {
        Seq::empty()
    };
    let second = if executable_dir_known {
        seq![AdapterCandidate::BesideExecutable]
    } else {
        Seq::empty()
    };
    let third = if executable_dir_known && contents_dir_known {
        seq![AdapterCandidate::BundleResources]
    } else {
        Seq::empty()
    };
    first + second + third
}

/// The candidates in order, by which of the directories that they stand in are
/// known.
pub fn adapter_candidates(
    override_set: bool,
    executable_dir_known: bool,
    contents_dir_known: bool,
) -> (res: Vec<AdapterCandidate>)
    ensures
        res@ == candidates(override_set, executable_dir_known, contents_dir_known),
{
    let mut res: Vec<AdapterCandidate> = Vec::new();
    if override_set {
        res.push(AdapterCandidate::Override);
    }
    if executable_dir_known {
        res.push(AdapterCandidate::BesideExecutable);
        if contents_dir_known {
            res.push(AdapterCandidate::BundleResources);
        }
    }
    assert(res@ == candidates(override_set, executable_dir_known, contents_dir_known));
    res
}

/// Locates the staged adapter: the first candidate that contains both adapter
/// parts. `probe` looks into a candidate.
pub fn adapter_directory<P: Fn(AdapterCandidate) -> AdapterParts>(
    override_set: bool,
    executable_dir_known: bool,
    contents_dir_known: bool,
    probe: P,
) -> (res: Option<AdapterCandidate>)
    requires
        forall|i: int|
            0 <= i < candidates(override_set, executable_dir_known, contents_dir_known).len()
                ==> #[trigger] probe.requires(
                (candidates(override_set, executable_dir_known, contents_dir_known)[i],),
            ),
    ensures
        ({
            let order = candidates(override_set, executable_dir_known, contents_dir_known);
            match res {
                Some(candidate) => exists|i: int|
                    {
                        &&& 0 <= i < order.len()
                        &&& #[trigger] order[i] == candidate
                        &&& exists|parts: AdapterParts| #[trigger]
                            probe.ensures((candidate,), parts) && parts.complete()
                        &&& forall|j: int| 0 <= j < i ==> found_incomplete(probe, #[trigger] order[j])
                    },
                None => forall|j: int|
                    0 <= j < order.len() ==> found_incomplete(probe, #[trigger] order[j]),
            }
        }),
{
    let order = adapter_candidates(override_set, executable_dir_known, contents_dir_known);
    let mut i: usize = 0;
    while i < order.len()
        invariant
            i <= order@.len(),
            order@ == candidates(override_set, executable_dir_known, contents_dir_known),
            forall|i: int| 0 <= i < order@.len() ==> #[trigger] probe.requires((order@[i],)),
            forall|j: int| 0 <= j < i ==> found_incomplete(probe, #[trigger] order@[j]),
        decreases order@.len() - i,
    {
        let candidate = order[i];
        assert(probe.requires((order@[i as int],)));
        let parts = probe(candidate);
        if parts.script && parts.framework {
            assert(probe.ensures((candidate,), parts) && parts.complete());
            assert(candidates(override_set, executable_dir_known, contents_dir_known)[i as int]
                == candidate);
            return Some(candidate);
        }
        assert(probe.ensures((candidate,), parts) && !parts.complete());
        i += 1;
    }
    None
}

/// Whether `probe` can have found a candidate without one of the parts.
pub open spec fn found_incomplete<P: Fn(AdapterCandidate) -> AdapterParts>(
    probe: P,
    candidate: AdapterCandidate,
) -> bool {
    exists|parts: AdapterParts| #[trigger]
        probe.ensures((candidate,), parts) && !parts.complete()
}

// -------------------------------------------------------------- arguments

/// What the adapter is asked for.
#[derive(Debug, Clone, Copy, PartialEq, Eq, Structural)]
pub enum AdapterRequest {
    /// The current Now Playing payload.
    Get,
    /// Delivery of a transport command, by its code.
    Send(u32),
    /// A seek to a position in microseconds.
    Seek(i64),
}

/// A decimal digit.
pub open spec fn digit(n: int) -> char {
    (48 + n) as char
}

/// A natural number in decimal.
pub open spec fn decimal(n: nat) -> Seq<char>
    decreases n,
{
    if n < 10 {
        seq![digit(n as int)]
    } else {
        decimal(n / 10).push(digit((n % 10) as int))
    }
}

/// An integer in decimal.
pub open spec fn signed_decimal(n: int) -> Seq<char> {
    if n < 0 {
        seq!['-'] + decimal((-n) as nat)
    } else {
        decimal(n as nat)
    }
}

/// The arguments of a request, behind those that name script and framework.
pub open spec fn request_arguments(request: AdapterRequest) -> Seq<Seq<char>> {
    match request {
        AdapterRequest::Get => seq!["get"@, "--now"@],
        AdapterRequest::Send(code) => seq!["send"@, decimal(code as nat)],
        AdapterRequest::Seek(micros) => seq!["seek"@, signed_decimal(micros as int)],
    }
}

/// The characters of each of several strings.
pub open spec fn strings_view(strings: Seq<String>) -> Seq<Seq<char>> {
    strings.map_values(|string: String| string@)
}

/// Appends a number in decimal.
fn push_decimal(out: &mut String, n: u64)
    ensures
        final(out)@ == old(out)@ + decimal(n as nat),
    decreases n,
{
    if n >= 10 {
        push_decimal(out, n / 10);
    }
    out.push((48 + (n % 10) as u8) as char);
}

/// The arguments of a request, behind those that name script and framework.
pub fn adapter_arguments(request: AdapterRequest) -> (res: Vec<String>)
    ensures
        strings_view(res@) == request_arguments(request),
{
    let mut number = String::new();
    let mut res: Vec<String> = Vec::new();
    match request {
        AdapterRequest::Get => {
            res.push("get".to_owned());
            res.push("--now".to_owned());
        },
        AdapterRequest::Send(code) => {
            push_decimal(&mut number, code as u64);
            res.push("send".to_owned());
            res.push(number);
        },
        AdapterRequest::Seek(micros) => {
            if micros < 0 {
                number.push('-');
                push_decimal(&mut number, (-(micros as i128)) as u64);
            } else {
                push_decimal(&mut number, micros as u64);
            }
            res.push("seek".to_owned());
            res.push(number);
        },
    }
    assert(strings_view(res@) =~= request_arguments(request));
    res
}

/// Sends one transport command through the staged adapter. `run` runs the
/// adapter with the given arguments: it returns `None` when no adapter is
/// staged or it could not be started, and otherwise whether it succeeded.
pub fn adapter_send<R: FnOnce(Vec<String>) -> Option<bool>>(code: u32, run: R) -> (res: Option<bool>)
    requires
        forall|arguments: Vec<String>|
            strings_view(arguments@) == request_arguments(AdapterRequest::Send(code))
                ==> #[trigger] run.requires((arguments,)),
    ensures
        exists|arguments: Vec<String>|
            {
                &&& #[trigger] run.ensures((arguments,), res)
                &&& strings_view(arguments@) == request_arguments(AdapterRequest::Send(code))
            },
{
    run(adapter_arguments(AdapterRequest::Send(code)))
}

/// Seeks to a position through the staged adapter, which `run` runs as for
/// [`adapter_send`].
pub fn adapter_seek<R: FnOnce(Vec<String>) -> Option<bool>>(
    position_micros: i64,
    run: R,
) -> (res: Option<bool>)
    requires
        forall|arguments: Vec<String>|
            strings_view(arguments@) == request_arguments(AdapterRequest::Seek(position_micros))
                ==> #[trigger] run.requires((arguments,)),
    ensures
        exists|arguments: Vec<String>|
            {
                &&& #[trigger] run.ensures((arguments,), res)
                &&& strings_view(arguments@) == request_arguments(
                    AdapterRequest::Seek(position_micros),
                )
            },
{
    run(adapter_arguments(AdapterRequest::Seek(position_micros)))
}

// ------------------------------------------------------------------- laws

/// The directory that the environment names comes before all others; the one
/// beside the executable comes before the one in the bundle.
pub proof fn law_candidate_order(
    override_set: bool,
    executable_dir_known: bool,
    contents_dir_known: bool,
)
    ensures
        ({
            let order = candidates(override_set, executable_dir_known, contents_dir_known);
            &&& override_set ==> order.len() > 0 && order[0] == AdapterCandidate::Override
            &&& !override_set ==> !order.contains(AdapterCandidate::Override)
            &&& forall|i: int, j: int|
                0 <= i < order.len() && 0 <= j < order.len() && order[i]
                    == AdapterCandidate::BesideExecutable && order[j]
                    == AdapterCandidate::BundleResources ==> i < j
        }),
{
}

} // verus!
