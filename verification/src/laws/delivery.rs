//! What commands, capabilities, volumes and subscriptions come to, and where the
//! adapter is looked for.

use vstd::prelude::*;

use crate::cache;
use crate::cache::AdapterCache;
use crate::double;
use crate::double::Double;
use crate::laws::adapter_payloads;
use crate::laws::payloads;
use crate::now_playing::NowPlaying;
use crate::seek;
use crate::session;
use crate::session::MediaSnapshot;
use crate::spectrum;
use crate::spectrum::Spectrum;
use crate::staging;
use crate::staging::{AdapterCandidate, AdapterParts, AdapterRequest};
use crate::subscription;
use crate::subscription::{Subscription, SubscriptionRequest, Subscriptions};
use crate::transport;
use crate::transport::{Capabilities, TransportCommand, UnknownCommand};

verus! {

// ---------------------------------------------------------------- commands

/// The number that MediaRemote knows a command by.
pub open spec fn number_of(command: TransportCommand) -> int {
    match command {
        TransportCommand::PlayPause => 2,
        TransportCommand::Next => 4,
        TransportCommand::Previous => 5,
        TransportCommand::Like => 106,
        TransportCommand::Dislike => 107,
    }
}

/// A command and its number name each other; other numbers are handed back.
pub proof fn law_commands_and_numbers(
    command: TransportCommand,
    code: u32,
    number: u32,
    parsed: Result<TransportCommand, UnknownCommand>,
)
    requires
        call_ensures(TransportCommand::code, (command,), code),
        call_ensures(TransportCommand::try_from, (number,), parsed),
    ensures
        code == number_of(command),
        number == code <==> parsed == Ok::<TransportCommand, UnknownCommand>(command),
        parsed matches Ok(found) ==> number_of(found) == number,
        parsed matches Err(UnknownCommand(unknown)) ==> unknown == number,
{
}

// ------------------------------------------------------------ capabilities

/// Whether a code is among the first `count` of the buffer.
pub open spec fn is_reported(buffer: Seq<u32>, count: int, code: u32) -> bool {
    exists|i: int| 0 <= i < count && i < buffer.len() && #[trigger] buffer[i] == code
}

/// Whether capabilities are those of a session: every reported code counts, and
/// the adapter offers previous and next where nothing is reported.
pub open spec fn are_capabilities(
    send_available: bool,
    buffer: Seq<u32>,
    count: int,
    adapter_available: bool,
    res: Capabilities,
) -> bool {
    let silent = count <= 0 || buffer.len() == 0;
    &&& res.play_pause <==> send_available
    &&& res.previous <==> send_available && (is_reported(buffer, count, 5) || (adapter_available
        && silent))
    &&& res.next <==> send_available && (is_reported(buffer, count, 4) || (adapter_available
        && silent))
    &&& res.like <==> send_available && is_reported(buffer, count, 106)
    &&& res.dislike <==> send_available && is_reported(buffer, count, 107)
}

proof fn lemma_reported(buffer: Seq<u32>, count: i32, code: u32)
    ensures
        transport::discovered_codes(buffer, count).contains(code) <==> is_reported(
            buffer,
            count as int,
            code,
        ),
        transport::discovered_codes(buffer, count).len() == 0 <==> count <= 0 || buffer.len() == 0,
{
    let codes = transport::discovered_codes(buffer, count);
    if codes.contains(code) {
        let i = choose|i: int| 0 <= i < codes.len() && codes[i] == code;
        assert(buffer[i] == code);
    }
    if is_reported(buffer, count as int, code) {
        let i = choose|i: int| 0 <= i < count && i < buffer.len() && #[trigger] buffer[i] == code;
        assert(codes[i] == code);
    }
}

/// Every code that discovery reports counts, wherever it stands, and none behind
/// the reported ones does.
pub proof fn law_every_reported_code_counts(
    adapter_available: bool,
    transport_status: i32,
    codes: &[u32],
    count: i32,
    res: Capabilities,
)
    requires
        call_ensures(
            transport::transport_capabilities,
            (adapter_available, transport_status, codes, count),
            res,
        ),
    ensures
        are_capabilities(
            transport_status != 0 || adapter_available,
            codes@,
            count as int,
            adapter_available,
            res,
        ),
{
    lemma_reported(codes@, count, 4);
    lemma_reported(codes@, count, 5);
    lemma_reported(codes@, count, 106);
    lemma_reported(codes@, count, 107);
}

/// Every enabled code counts, wherever it stands.
pub proof fn law_every_enabled_code_counts(
    send_available: bool,
    codes: &[u32],
    adapter_available: bool,
    res: Capabilities,
)
    requires
        call_ensures(
            transport::resolve_capabilities,
            (send_available, codes, adapter_available),
            res,
        ),
    ensures
        are_capabilities(
            send_available,
            codes@,
            codes@.len() as int,
            adapter_available,
            res,
        ),
{
    assert forall|code: u32| codes@.contains(code) <==> #[trigger] is_reported(
        codes@,
        codes@.len() as int,
        code,
    ) by {
        if codes@.contains(code) {
            let i = choose|i: int| 0 <= i < codes@.len() && codes@[i] == code;
            assert(codes@[i] == code);
        }
    }
    assert(is_reported(codes@, codes@.len() as int, 5) == codes@.contains(5));
    assert(is_reported(codes@, codes@.len() as int, 4) == codes@.contains(4));
    assert(is_reported(codes@, codes@.len() as int, 106) == codes@.contains(106));
    assert(is_reported(codes@, codes@.len() as int, 107) == codes@.contains(107));
}

// ---------------------------------------------------------------- delivery

/// Whether a delivery leaves a cache: without a time, where it was delivered, and
/// untouched otherwise.
pub open spec fn leaves_cache(before: AdapterCache, after: AdapterCache, sent: bool) -> bool {
    &&& after.value == before.value
    &&& after.fetched_at == (if sent {
        None
    } else {
        before.fetched_at
    })
}

/// A direct way is taken exactly where the adapter did not deliver, and then
/// decides.
pub proof fn law_direct_ways_follow_the_adapter<F: FnOnce() -> bool>(
    adapter_result: Option<bool>,
    direct: F,
    res: bool,
)
    requires
        call_ensures(transport::resolve_transport_send::<F>, (adapter_result, direct), res),
    ensures
        adapter_result == Some(true) ==> res,
        adapter_result != Some(true) ==> direct.ensures((), res),
{
}

/// A command goes to the adapter by its number, and by the same number to the
/// native layer where the adapter did not deliver it. It counts as sent where
/// either delivered it, and only then is the cache outdated.
pub proof fn law_commands_are_delivered_by_number<
    A: FnOnce(u32) -> Option<bool>,
    D: FnOnce(u32) -> i32,
>(cache: &mut AdapterCache, command: TransportCommand, adapter: A, direct: D, res: bool)
    requires
        call_ensures(transport::transport_send::<A, D>, (cache, command, adapter, direct), res),
    ensures
        exists|answer: Option<bool>|
            {
                &&& #[trigger] adapter.ensures((number_of(command) as u32,), answer)
                &&& answer == Some(true) ==> res
                &&& answer != Some(true) ==> exists|status: i32|
                    {
                        &&& #[trigger] direct.ensures((number_of(command) as u32,), status)
                        &&& res <==> status != 0
                    }
            },
        leaves_cache(*old(cache), *final(cache), res),
{
    assert(transport::command_code(command) == number_of(command) as u32);
}

/// The digits of a number, the most significant one first.
pub open spec fn decimal_value(digits: Seq<char>) -> int
    decreases digits.len(),
{
    if digits.len() == 0 {
        0
    } else {
        decimal_value(digits.drop_last()) * 10 + (digits.last() as int - '0' as int)
    }
}

/// Whether the characters are a number in decimal: digits, without zeros in
/// front, that come to the number.
pub open spec fn spells(digits: Seq<char>, n: int) -> bool {
    &&& digits.len() > 0
    &&& forall|i: int| 0 <= i < digits.len() ==> '0' <= #[trigger] digits[i] <= '9'
    &&& digits.len() > 1 ==> digits[0] != '0'
    &&& decimal_value(digits) == n
}

proof fn lemma_decimal(n: nat)
    ensures
        spells(staging::decimal(n), n as int),
        n > 0 ==> staging::decimal(n)[0] != '0',
    decreases n,
{
    let digits = staging::decimal(n);
    if n < 10 {
        assert(digits.drop_last() =~= Seq::<char>::empty());
        assert(decimal_value(digits.drop_last()) == 0);
        assert(digits.last() as int == 48 + n);
    } else {
        lemma_decimal(n / 10);
        let rest = staging::decimal(n / 10);
        assert(digits.drop_last() =~= rest);
        assert(digits.last() as int == 48 + n % 10);
        assert(digits[0] == rest[0]);
        assert forall|i: int| 0 <= i < digits.len() implies '0' <= #[trigger] digits[i] <= '9' by {
            if i < rest.len() {
                assert(digits[i] == rest[i]);
            }
        }
    }
}

/// Whether the words are a request: its name, and its number in decimal.
pub open spec fn asks(arguments: Seq<String>, name: Seq<char>, n: int) -> bool {
    &&& arguments.len() == 2
    &&& arguments[0]@ == name
    &&& if n < 0 {
        &&& arguments[1]@.len() > 1
        &&& arguments[1]@[0] == '-'
        &&& spells(arguments[1]@.skip(1), -n)
    } else {
        spells(arguments[1]@, n)
    }
}

proof fn lemma_words(arguments: Seq<String>, request: AdapterRequest)
    requires
        staging::strings_view(arguments) == staging::request_arguments(request),
    ensures
        match request {
            AdapterRequest::Get => arguments.len() == 2 && arguments[0]@ == seq!['g', 'e', 't']
                && arguments[1]@ == seq!['-', '-', 'n', 'o', 'w'],
            AdapterRequest::Send(code) => asks(
                arguments,
                seq!['s', 'e', 'n', 'd'],
                code as int,
            ),
            AdapterRequest::Seek(micros) => asks(
                arguments,
                seq!['s', 'e', 'e', 'k'],
                micros as int,
            ),
        },
{
    reveal_strlit("get");
    reveal_strlit("--now");
    reveal_strlit("send");
    reveal_strlit("seek");
    let words = staging::strings_view(arguments);
    assert(words.len() == arguments.len());
    assert(words.len() == 2);
    assert(words[0] == arguments[0]@ && words[1] == arguments[1]@);
    match request {
        AdapterRequest::Get => {
            assert("get"@ =~= seq!['g', 'e', 't']);
            assert("--now"@ =~= seq!['-', '-', 'n', 'o', 'w']);
        },
        AdapterRequest::Send(code) => {
            assert("send"@ =~= seq!['s', 'e', 'n', 'd']);
            lemma_decimal(code as nat);
        },
        AdapterRequest::Seek(micros) => {
            assert("seek"@ =~= seq!['s', 'e', 'e', 'k']);
            if micros < 0 {
                lemma_decimal((-micros) as nat);
                assert(arguments[1]@.skip(1) =~= staging::decimal((-micros) as nat));
            } else {
                lemma_decimal(micros as nat);
            }
        },
    }
}

/// The adapter is asked in words, with the number of the command or position in
/// decimal.
pub proof fn law_requests_are_spelled_out(request: AdapterRequest, res: Vec<String>)
    requires
        call_ensures(staging::adapter_arguments, (request,), res),
    ensures
        match request {
            AdapterRequest::Get => adapter_payloads::asks_for_payload(res),
            AdapterRequest::Send(code) => asks(res@, seq!['s', 'e', 'n', 'd'], code as int),
            AdapterRequest::Seek(micros) => asks(res@, seq!['s', 'e', 'e', 'k'], micros as int),
        },
{
    lemma_words(res@, request);
}

/// Deliveries through the adapter are asked for in words, and what it answers is
/// handed on.
pub proof fn law_adapter_deliveries_are_asked_for<R: FnOnce(Vec<String>) -> Option<bool>>(
    code: u32,
    micros: i64,
    run: R,
    sent: Option<bool>,
    sought: Option<bool>,
)
    requires
        call_ensures(staging::adapter_send::<R>, (code, run), sent),
        call_ensures(staging::adapter_seek::<R>, (micros, run), sought),
    ensures
        exists|arguments: Vec<String>|
            {
                &&& #[trigger] run.ensures((arguments,), sent)
                &&& asks(arguments@, seq!['s', 'e', 'n', 'd'], code as int)
            },
        exists|arguments: Vec<String>|
            {
                &&& #[trigger] run.ensures((arguments,), sought)
                &&& asks(arguments@, seq!['s', 'e', 'e', 'k'], micros as int)
            },
{
    let send = choose|arguments: Vec<String>|
        {
            &&& #[trigger] run.ensures((arguments,), sent)
            &&& staging::strings_view(arguments@) == staging::request_arguments(
                AdapterRequest::Send(code),
            )
        };
    lemma_words(send@, AdapterRequest::Send(code));
    let seek = choose|arguments: Vec<String>|
        {
            &&& #[trigger] run.ensures((arguments,), sought)
            &&& staging::strings_view(arguments@) == staging::request_arguments(
                AdapterRequest::Seek(micros),
            )
        };
    lemma_words(seek@, AdapterRequest::Seek(micros));
}

// ----------------------------------------------------------------- staging

/// Whether a candidate's directory is known.
pub open spec fn is_known(
    candidate: AdapterCandidate,
    override_set: bool,
    executable_dir_known: bool,
    contents_dir_known: bool,
) -> bool {
    match candidate {
        AdapterCandidate::Override => override_set,
        AdapterCandidate::BesideExecutable => executable_dir_known,
        AdapterCandidate::BundleResources => executable_dir_known && contents_dir_known,
    }
}

/// Which candidate comes first, second and third.
pub open spec fn rank(candidate: AdapterCandidate) -> int {
    match candidate {
        AdapterCandidate::Override => 0,
        AdapterCandidate::BesideExecutable => 1,
        AdapterCandidate::BundleResources => 2,
    }
}

/// Whether `probe` can have found both parts in a candidate.
pub open spec fn can_be_complete<P: Fn(AdapterCandidate) -> AdapterParts>(
    probe: P,
    candidate: AdapterCandidate,
) -> bool {
    exists|parts: AdapterParts| #[trigger]
        probe.ensures((candidate,), parts) && parts.script && parts.framework
}

/// Whether `probe` can have missed a part in a candidate.
pub open spec fn can_be_incomplete<P: Fn(AdapterCandidate) -> AdapterParts>(
    probe: P,
    candidate: AdapterCandidate,
) -> bool {
    exists|parts: AdapterParts| #[trigger]
        probe.ensures((candidate,), parts) && !(parts.script && parts.framework)
}

proof fn lemma_candidates(
    override_set: bool,
    executable_dir_known: bool,
    contents_dir_known: bool,
    candidate: AdapterCandidate,
)
    ensures
        ({
            let order = staging::candidates(
                override_set,
                executable_dir_known,
                contents_dir_known,
            );
            &&& order.contains(candidate) <==> is_known(
                candidate,
                override_set,
                executable_dir_known,
                contents_dir_known,
            )
            &&& forall|i: int, j: int| 0 <= i < j < order.len() ==> rank(#[trigger] order[i]) < rank(
                #[trigger] order[j],
            )
        }),
{
    let order = staging::candidates(override_set, executable_dir_known, contents_dir_known);
    let (a, b, c) = (override_set, executable_dir_known, contents_dir_known);
    let first = AdapterCandidate::Override;
    let second = AdapterCandidate::BesideExecutable;
    let third = AdapterCandidate::BundleResources;
    if a && b && c {
        assert(order =~= seq![first, second, third]);
        assert(order[0] == first && order[1] == second && order[2] == third);
    } else if a && b {
        assert(order =~= seq![first, second]);
        assert(order[0] == first && order[1] == second);
    } else if a {
        assert(order =~= seq![first]);
        assert(order[0] == first);
    } else if b && c {
        assert(order =~= seq![second, third]);
        assert(order[0] == second && order[1] == third);
    } else if b {
        assert(order =~= seq![second]);
        assert(order[0] == second);
    } else {
        assert(order =~= Seq::<AdapterCandidate>::empty());
    }
}

/// The candidates are the known directories, each once: the override, the one
/// beside the executable, and the one in the bundle.
pub proof fn law_candidates_are_the_known_directories(
    override_set: bool,
    executable_dir_known: bool,
    contents_dir_known: bool,
    candidate: AdapterCandidate,
    res: Vec<AdapterCandidate>,
)
    requires
        call_ensures(
            staging::adapter_candidates,
            (override_set, executable_dir_known, contents_dir_known),
            res,
        ),
    ensures
        res@.contains(candidate) <==> is_known(
            candidate,
            override_set,
            executable_dir_known,
            contents_dir_known,
        ),
        forall|i: int, j: int| 0 <= i < j < res@.len() ==> rank(#[trigger] res@[i]) < rank(
            #[trigger] res@[j],
        ),
{
    lemma_candidates(override_set, executable_dir_known, contents_dir_known, candidate);
}

/// The adapter lies in the first known directory that holds both parts, and
/// nowhere where none does.
pub proof fn law_the_first_complete_directory_is_taken<
    P: Fn(AdapterCandidate) -> AdapterParts,
>(
    override_set: bool,
    executable_dir_known: bool,
    contents_dir_known: bool,
    probe: P,
    res: Option<AdapterCandidate>,
    other: AdapterCandidate,
)
    requires
        call_ensures(
            staging::adapter_directory::<P>,
            (override_set, executable_dir_known, contents_dir_known, probe),
            res,
        ),
    ensures
        res matches Some(found) ==> {
            &&& is_known(found, override_set, executable_dir_known, contents_dir_known)
            &&& can_be_complete(probe, found)
        },
        is_known(other, override_set, executable_dir_known, contents_dir_known) && (res matches Some(
            found,
        ) ==> rank(other) < rank(found)) ==> can_be_incomplete(probe, other),
{
    let order = staging::candidates(override_set, executable_dir_known, contents_dir_known);
    lemma_candidates(override_set, executable_dir_known, contents_dir_known, other);
    if let Some(found) = res {
        lemma_candidates(override_set, executable_dir_known, contents_dir_known, found);
        let i = choose|i: int|
            {
                &&& 0 <= i < order.len()
                &&& #[trigger] order[i] == found
                &&& exists|parts: AdapterParts| #[trigger]
                    probe.ensures((found,), parts) && parts.complete()
                &&& forall|j: int| 0 <= j < i ==> staging::found_incomplete(
                    probe,
                    #[trigger] order[j],
                )
            };
        assert(order.contains(found));
        if order.contains(other) && rank(other) < rank(found) {
            let j = choose|j: int| 0 <= j < order.len() && order[j] == other;
            if j > i {
                assert(rank(order[i]) < rank(order[j]));
            }
            assert(staging::found_incomplete(probe, order[j]));
        }
    } else if order.contains(other) {
        let j = choose|j: int| 0 <= j < order.len() && order[j] == other;
        assert(staging::found_incomplete(probe, order[j]));
    }
}

// --------------------------------------------------------------- restraint

/// What is not wanted is not called: whatever a function to call demands, it may
/// be handed over where the adapter has delivered or answered, where the cache is
/// fresh, where the volume or position is invalid, and without the permission.
pub proof fn law_nothing_is_called_in_vain<
    F: FnOnce() -> bool,
    D: FnOnce(u32) -> Option<Vec<u8>>,
    R: FnOnce() -> (Option<NowPlaying>, u128),
    V: FnOnce(Double) -> i32,
    A: FnOnce(i64) -> Option<bool>,
    S: FnOnce() -> u64,
>(
    send: F,
    fetch: (u64, u32, Option<NowPlaying>, D),
    cache: &mut AdapterCache,
    now: u128,
    read: R,
    number: Double,
    native: V,
    adapter: A,
    start: S,
)
    ensures
        call_requires(transport::resolve_transport_send::<F>, (Some(true), send)),
        fetch.2 is Some ==> call_requires(session::now_playing_fetch::<D>, fetch),
        (old(cache).fetched_at matches Some(time) && now - time < 2_000_000_000) ==> call_requires(
            cache::adapter_now_playing::<R>,
            (cache, now, read),
        ),
        !unit_bits(number.bits) ==> call_requires(
            session::set_output_volume::<V>,
            (number, native),
        ),
        !payloads::time_bits(number.bits) ==> call_requires(
            seek::seek::<A, V>,
            (cache, number, adapter, native),
        ),
        call_requires(spectrum::spectrum_start::<S>, (false, start)),
{
    lemma_bits(number);
    payloads::lemma_time_bits(number);
    seek::law_accepted_positions(number);
}

/// After the adapter delivered, the native layer is not asked: a command may be
/// sent whatever the native layer demands.
pub proof fn law_delivered_commands_go_no_further<
    A: FnOnce(u32) -> Option<bool>,
    D: FnOnce(u32) -> i32,
>(cache: &mut AdapterCache, command: TransportCommand, adapter: A, direct: D)
    requires
        adapter.requires((number_of(command) as u32,)),
        forall|answer: Option<bool>| #[trigger]
            adapter.ensures((number_of(command) as u32,), answer) ==> answer == Some(true),
    ensures
        call_requires(transport::transport_send::<A, D>, (cache, command, adapter, direct)),
{
    assert(transport::command_code(command) == number_of(command) as u32);
}

/// A new cache has no answer.
pub proof fn law_new_caches_are_empty(res: AdapterCache, now: u128, fresh: bool)
    requires
        call_ensures(AdapterCache::new, (), res),
        call_ensures(AdapterCache::fresh, (&res, now), fresh),
    ensures
        res.fetched_at is None,
        res.value is None,
        !fresh,
{
}

// ------------------------------------------------------------------ volume

/// Whether the bits are those of a number between zero and one.
pub open spec fn unit_bits(bits: u64) -> bool {
    bits <= 0x3ff0_0000_0000_0000 || bits == 0x8000_0000_0000_0000
}

/// Whether `res` are the bits of the number, moved into the range from zero to
/// one.
pub open spec fn is_unit_of(bits: u64, res: u64) -> bool {
    if unit_bits(bits) {
        res == bits
    } else if bits < 0x8000_0000_0000_0000 {
        res == 0x3ff0_0000_0000_0000
    } else {
        res == 0
    }
}

/// Whether the bits are those of a finite number.
pub open spec fn finite_bits(bits: u64) -> bool {
    bits < 0x7ff0_0000_0000_0000 || 0x8000_0000_0000_0000 <= bits < 0xfff0_0000_0000_0000
}

/// What the comparisons say of a number, by its bits.
pub proof fn lemma_bits(d: Double)
    ensures
        d@ is Finite <==> finite_bits(d.bits),
        d@.in_unit_range() <==> unit_bits(d.bits),
        finite_bits(d.bits) ==> is_unit_of(d.bits, d.clamped().bits),
        d@.at_least_zero() <==> d.bits <= 0x7ff0_0000_0000_0000 || d.bits == 0x8000_0000_0000_0000,
        d@.above_zero() <==> 0 < d.bits <= 0x7ff0_0000_0000_0000,
        d@.below_zero() <==> 0x8000_0000_0000_0000 < d.bits <= 0xfff0_0000_0000_0000,
        d@.above_one() <==> 0x3ff0_0000_0000_0000 < d.bits <= 0x7ff0_0000_0000_0000,
{
    double::lemma_one();
    vstd::arithmetic::power2::lemma_pow2_pos(1074);
    let unit = Double { bits: 0x3ff0_0000_0000_0000 };
    if d.exponent_field() != 2047 {
        double::lemma_magnitude_sign(d);
        if d.bits < unit.bits {
            double::lemma_magnitudes_are_ordered(d, unit);
        } else if unit.bits < d.bits < 0x7ff0_0000_0000_0000 {
            double::lemma_magnitudes_are_ordered(unit, d);
        }
    }
}

/// Numbers compare as their bits do, but for the sign and what is no number.
pub proof fn law_comparisons_go_by_bits(
    d: Double,
    finite: bool,
    at_least_zero: bool,
    above_zero: bool,
    below_zero: bool,
    above_one: bool,
)
    requires
        call_ensures(Double::is_finite, (d,), finite),
        call_ensures(Double::at_least_zero, (d,), at_least_zero),
        call_ensures(Double::above_zero, (d,), above_zero),
        call_ensures(Double::below_zero, (d,), below_zero),
        call_ensures(Double::above_one, (d,), above_one),
    ensures
        finite <==> finite_bits(d.bits),
        at_least_zero <==> d.bits <= 0x7ff0_0000_0000_0000 || d.bits == 0x8000_0000_0000_0000,
        above_zero <==> 0 < d.bits <= 0x7ff0_0000_0000_0000,
        below_zero <==> 0x8000_0000_0000_0000 < d.bits <= 0xfff0_0000_0000_0000,
        above_one <==> 0x3ff0_0000_0000_0000 < d.bits <= 0x7ff0_0000_0000_0000,
{
    lemma_bits(d);
}

/// A finite number is moved into the range from zero to one, and one that is
/// there stays as it is, to the bit.
pub proof fn law_clamps_move_into_range(d: Double, res: Double)
    requires
        call_ensures(Double::clamp_to_unit_range, (d,), res),
        finite_bits(d.bits),
    ensures
        is_unit_of(d.bits, res.bits),
{
    lemma_bits(d);
}

/// A volume is valid where it lies between zero and one; one that is reported
/// and finite is returned, moved there.
pub proof fn law_volumes_are_normalized(
    status: i32,
    volume: Double,
    valid: bool,
    res: Option<Double>,
)
    requires
        call_ensures(session::valid_output_volume, (volume,), valid),
        call_ensures(session::output_volume, (status, volume), res),
    ensures
        valid <==> unit_bits(volume.bits),
        res is Some <==> status != 0 && finite_bits(volume.bits),
        res matches Some(level) ==> is_unit_of(volume.bits, level.bits),
{
    lemma_bits(volume);
}

/// A valid volume reaches the device as it is, and the device decides; one that
/// is not valid is refused.
pub proof fn law_valid_volumes_are_set<S: FnOnce(Double) -> i32>(
    volume: Double,
    native_set: S,
    res: bool,
)
    requires
        call_ensures(session::set_output_volume::<S>, (volume, native_set), res),
    ensures
        unit_bits(volume.bits) ==> exists|status: i32|
            #[trigger] native_set.ensures((volume,), status) && (res <==> status != 0),
        !unit_bits(volume.bits) ==> !res,
{
    lemma_bits(volume);
}

// ---------------------------------------------------------------- snapshot

/// A snapshot holds what was read of each part, whatever the other parts are.
pub proof fn law_snapshots_hold_their_parts<
    F: FnOnce(u64, u32) -> Option<NowPlaying>,
    C: FnOnce() -> Capabilities,
    V: FnOnce() -> Option<Double>,
>(
    secs: u64,
    nanos: u32,
    fetch: F,
    capabilities: C,
    volume: V,
    res: MediaSnapshot,
    parts: (Option<NowPlaying>, Capabilities, Option<Double>),
    composed: MediaSnapshot,
)
    requires
        call_ensures(
            session::media_snapshot::<F, C, V>,
            (secs, nanos, fetch, capabilities, volume),
            res,
        ),
        call_ensures(session::compose_media_snapshot, parts, composed),
    ensures
        fetch.ensures((secs, nanos), res.now_playing),
        capabilities.ensures((), res.capabilities),
        volume.ensures((), res.output_volume),
        composed.now_playing == parts.0,
        composed.capabilities == parts.1,
        composed.output_volume == parts.2,
{
}

/// A copy of a snapshot agrees with it in every part.
pub proof fn law_snapshot_copies_agree(snapshot: MediaSnapshot, res: MediaSnapshot)
    requires
        call_ensures(MediaSnapshot::clone, (&snapshot,), res),
    ensures
        adapter_payloads::same_snapshot(snapshot.now_playing, res.now_playing),
        res.capabilities == snapshot.capabilities,
        res.output_volume == snapshot.output_volume,
{
    adapter_payloads::lemma_same_snapshot(snapshot.now_playing, res.now_playing);
}

/// The native layer says no with zero, and yes with anything else.
pub proof fn law_zero_says_no(status: i32, answers: (bool, bool, bool, bool))
    requires
        call_ensures(session::now_playing_available, (status,), answers.0),
        call_ensures(transport::transport_available, (status,), answers.1),
        call_ensures(spectrum::spectrum_permission_granted, (status,), answers.2),
        call_ensures(spectrum::spectrum_request_permission, (status,), answers.3),
    ensures
        answers.0 <==> status != 0,
        answers.1 <==> status != 0,
        answers.2 <==> status != 0,
        answers.3 <==> status != 0,
{
}

/// A spectrum is started only with the permission; the native layer's handle is
/// kept, and zero is no handle.
pub proof fn law_spectra_are_started_with_permission<S: FnOnce() -> u64>(
    permission_granted: bool,
    native_start: S,
    res: Option<Spectrum>,
    handle: u64,
    consented: Option<Spectrum>,
)
    requires
        call_ensures(spectrum::spectrum_start::<S>, (permission_granted, native_start), res),
        call_ensures(spectrum::spectrum_start_with_existing_consent, (handle,), consented),
    ensures
        !permission_granted ==> res is None,
        permission_granted ==> match res {
            Some(started) => started.handle != 0 && native_start.ensures((), started.handle),
            None => native_start.ensures((), 0),
        },
        handle == 0 <==> consented is None,
        consented matches Some(started) ==> started.handle == handle,
{
}

// ----------------------------------------------------------- subscriptions

/// A new registry holds nothing.
pub proof fn law_new_registries_are_empty<C>(res: Subscriptions<C>, id: u64)
    requires
        call_ensures(Subscriptions::<C>::new, (), res),
    ensures
        !res.callbacks@.contains_key(id),
{
}

/// The callback that is found is the one under the key.
pub proof fn law_callbacks_are_found_by_key<'a, C>(
    subscriptions: &'a Subscriptions<C>,
    id: u64,
    res: Option<&'a C>,
)
    requires
        call_ensures(Subscriptions::<C>::callback, (subscriptions, id), res),
    ensures
        res is Some <==> subscriptions.callbacks@.contains_key(id),
        res matches Some(callback) ==> *callback == subscriptions.callbacks@[id],
{
}

/// Two requests in a row have different contexts and touch no callback, and each
/// hands on its interval in whole milliseconds.
pub proof fn law_requests_have_contexts_of_their_own<C>(
    first: &mut Subscriptions<C>,
    second: &mut Subscriptions<C>,
    secs: u64,
    nanos: u32,
    a: SubscriptionRequest,
    b: SubscriptionRequest,
)
    requires
        call_ensures(Subscriptions::<C>::request, (first, secs, nanos), a),
        call_ensures(Subscriptions::<C>::request, (second, secs, nanos), b),
        *old(second) == *final(first),
    ensures
        a.context != b.context,
        a.context < u64::MAX ==> b.context == a.context + 1,
        payloads::is_millis_of(secs, nanos, a.interval_ms),
        final(first).callbacks@ == old(first).callbacks@,
{
    payloads::lemma_millis(secs, nanos);
}

/// A subscription is entered under its context and with its handle where the
/// native layer gave one, and touches no other; its release takes just it away.
pub proof fn law_subscriptions_come_and_go<C>(
    before: &mut Subscriptions<C>,
    after: &mut Subscriptions<C>,
    id: u64,
    handle: u64,
    callback: C,
    res: Option<Subscription>,
    other: u64,
)
    requires
        call_ensures(
            subscription::now_playing_subscribe::<C>,
            (before, id, handle, callback),
            res,
        ),
        *old(after) == *final(before),
        res matches Some(entered) ==> call_ensures(
            Subscription::release::<C>,
            (&entered, after),
            (),
        ),
    ensures
        handle == 0 <==> res is None,
        res is None ==> final(before).callbacks@ == old(before).callbacks@,
        res matches Some(entered) ==> {
            &&& entered.handle == handle
            &&& final(before).callbacks@.contains_key(id)
            &&& final(before).callbacks@[id] == callback
            &&& !final(after).callbacks@.contains_key(id)
            &&& other != id ==> {
                &&& final(before).callbacks@.contains_key(other) <==> old(before).callbacks@.contains_key(other)
                &&& final(after).callbacks@.contains_key(other) <==> old(before).callbacks@.contains_key(other)
                &&& old(before).callbacks@.contains_key(other) ==> {
                    &&& final(before).callbacks@[other] == old(before).callbacks@[other]
                    &&& final(after).callbacks@[other] == old(before).callbacks@[other]
                }
            }
            &&& !old(before).callbacks@.contains_key(id) ==> final(after).callbacks@ == old(before).callbacks@
        },
{
    if res is Some && !old(before).callbacks@.contains_key(id) {
        assert(final(after).callbacks@ =~= old(before).callbacks@);
    }
}

} // verus!
