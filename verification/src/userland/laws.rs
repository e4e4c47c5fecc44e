//! What holds of running as an ordinary process.
use crate::bits::{lemma_mapping_bits, lemma_signal_bits};
use crate::linux::errno::Errno;
use crate::text;
use crate::userland::maps::{
    dash_from, hex_address, hex_digit, hex_value, maps_after, maps_of, newline, range_of, space,
};
use crate::userland::raw_mutex::{
    block_after, claimed, count_of, finished, has_waker, lemma_waker_word, wake_after, wake_limit,
    BlockEvent, BlockOutcome, BlockPhase, WakeEvent, WakePhase,
};
use crate::userland::{
    blockable_bits, interface_name_bytes, is_interface_name, mapping_bits, power_from, prot_bits,
    sigaction_result, size_to_map, spawn_outcome,
};
use vstd::arithmetic::power2::{lemma_pow2_unfold, pow2};
use vstd::prelude::*;

verus! {

/// A protection lets pages be read, written and executed exactly if the permissions do: the bits of
/// both are the same.
pub proof fn lemma_protection_is_permissions(bits: u8)
    ensures
        prot_bits(bits) == bits & 7,
{
    lemma_mapping_bits(bits, 0, 0);
}

/// Pages are mapped as private (0x2, and not 0x1), without a file (0x20) and at their address
/// (0x10). They grow down (0x100) and are filled at once (0x8000) exactly if that is asked for.
pub proof fn lemma_pages_are_mapped(can_grow_down: bool, populate_pages: bool)
    ensures
        mapping_bits(can_grow_down, populate_pages) & 0x2 != 0,
        mapping_bits(can_grow_down, populate_pages) & 0x1 == 0,
        mapping_bits(can_grow_down, populate_pages) & 0x20 != 0,
        mapping_bits(can_grow_down, populate_pages) & 0x10 != 0,
        mapping_bits(can_grow_down, populate_pages) & 0x100 != 0 <==> can_grow_down,
        mapping_bits(can_grow_down, populate_pages) & 0x8000 != 0 <==> populate_pages,
{
    let grow: u32 = if can_grow_down {
        0x100
    } else {
        0
    };
    let populate: u32 = if populate_pages {
        0x8000
    } else {
        0
    };
    lemma_mapping_bits(0, grow, populate);
}

proof fn lemma_power_from(n: int, p: int) -> (k: nat)
    requires
        p > 0,
    ensures
        power_from(n, p) == p * pow2(k),
        power_from(n, p) >= n,
        power_from(n, p) >= p,
        power_from(n, p) > p ==> power_from(n, p) < 2 * n,
    decreases 2 * n - p,
{
    if p >= n {
        vstd::arithmetic::power2::lemma2_to64();
        assert(p * pow2(0) == p) by (nonlinear_arith)
            requires
                pow2(0) == 1,
        ;
        0
    } else {
        let k = lemma_power_from(n, 2 * p);
        lemma_pow2_unfold(k + 1);
        let q = pow2(k) as int;
        assert(2 * p * q == p * (2 * q)) by (nonlinear_arith);
        k + 1
    }
}

/// What is mapped for an allocation has room for it and, wherever it starts, for a chunk with the
/// alignment; it is never less than two pages of 4096 bytes. It is either twice the alignment, or
/// two pages, or the smallest power of two that has room.
pub proof fn lemma_allocations_have_room(size: int, align: int)
    requires
        size >= 0,
        align >= 0,
    ensures
        size_to_map(size, align) >= size,
        size_to_map(size, align) >= 2 * align,
        size_to_map(size, align) >= 0x2000,
        size_to_map(size, align) == 2 * align || size_to_map(size, align) == 0x2000 || (
        size_to_map(size, align) < 2 * size && exists|k: nat|
            size_to_map(size, align) == #[trigger] pow2(k)),
{
    let k = lemma_power_from(size, 1);
    assert(1 * pow2(k) == pow2(k));
    if size_to_map(size, align) != 2 * align && size_to_map(size, align) != 0x2000 {
        assert(size_to_map(size, align) == pow2(k));
    }
}

/// The signal 31, whose bit is 0x40000000, is never blocked, and any other is exactly if that is
/// asked for. Its action stays.
pub proof fn lemma_interception_is_kept(set: u64, bit: u64, signum: u32, changes_action: bool)
    ensures
        blockable_bits(set) & 0x4000_0000 == 0,
        bit & 0x4000_0000 == 0 ==> blockable_bits(set) & bit == set & bit,
        sigaction_result(signum, changes_action) is Err <==> signum == 31 && changes_action,
        sigaction_result(signum, changes_action) is Err ==> sigaction_result(
            signum,
            changes_action,
        )->Err_0.number == 22,
{
    lemma_signal_bits(set, bit);
}

/// A system call that creates a thread has failed exactly if its result is one of the last 4095
/// numbers, which is then the error number, counted down from zero. Of these 1, 11, 12, 13, 16, 17,
/// 22 and 28 are told.
pub proof fn lemma_spawned_threads(ret: usize, errno: int)
    ensures
        ret <= usize::MAX - 4095 ==> spawn_outcome(ret) == Some(Ok::<usize, Errno>(ret)),
        1 <= errno <= 4095 && ret == usize::MAX + 1 - errno ==> {
            let known = errno == 1 || errno == 11 || errno == 12 || errno == 13 || errno == 16
                || errno == 17 || errno == 22 || errno == 28;
            &&& spawn_outcome(ret) is Some <==> known
            &&& known ==> spawn_outcome(ret)->Some_0 is Err
            &&& known ==> spawn_outcome(ret)->Some_0->Err_0.number == errno
        },
{
}

/// The name of an interface is passed as 16 bytes: its characters, and then zeros. There is one at
/// least.
pub proof fn lemma_interface_names(name: Seq<char>, k: int)
    requires
        is_interface_name(name),
        0 <= k < 16,
    ensures
        name.len() <= 15,
        interface_name_bytes(name).len() == 16,
        k < name.len() ==> interface_name_bytes(name)[k] == name[k] as u32,
        k >= name.len() ==> interface_name_bytes(name)[k] == 0,
{
}

/// A string is the name of an interface exactly if it has at most 15 characters, all of which are
/// ASCII.
pub proof fn lemma_what_names_interfaces(name: Seq<char>)
    ensures
        is_interface_name(name) <==> name.len() <= 15 && forall|k: int|
            0 <= k < name.len() ==> (#[trigger] name[k]) as u32 <= 127,
{
}

/// The values of hexadecimal digits: those from `0` on, and letters of either case from ten on.
pub proof fn lemma_hexadecimal_digits(c: char)
    ensures
        48 <= c as u32 <= 57 ==> hex_digit(c) == Some((c as u32 - 48) as nat),
        97 <= c as u32 <= 102 ==> hex_digit(c) == Some((c as u32 - 87) as nat),
        65 <= c as u32 <= 70 ==> hex_digit(c) == Some((c as u32 - 55) as nat),
        !(48 <= c as u32 <= 57) && !(97 <= c as u32 <= 102) && !(65 <= c as u32 <= 70)
            ==> hex_digit(c) is None,
{
}

/// One digit more makes a number sixteen times as large and adds its value; there is no number where
/// something is no digit.
pub proof fn lemma_hexadecimal_numbers(s: Seq<char>, c: char)
    ensures
        hex_value(Seq::empty()) == Some(0nat),
        hex_value(s) is Some && hex_digit(c) is Some ==> hex_value(s.push(c)) == Some(
            16 * hex_value(s)->Some_0 + hex_digit(c)->Some_0,
        ),
        hex_value(s) is None || hex_digit(c) is None ==> hex_value(s.push(c)) is None,
{
    assert(s.push(c).drop_last() =~= s);
}

proof fn lemma_dash(s: Seq<char>, from: int, at: int)
    requires
        0 <= from <= at <= s.len(),
        forall|k: int| from <= k < at ==> s[k] != '-',
        at < s.len() ==> s[at] == '-',
    ensures
        dash_from(s, from) == at,
    decreases at - from,
{
    if from < at {
        lemma_dash(s, from + 1, at);
    }
}

/// Two numbers with a dash between them are the start and the end of a range.
pub proof fn lemma_ranges_are_read(a: Seq<char>, b: Seq<char>)
    requires
        forall|k: int| 0 <= k < a.len() ==> #[trigger] a[k] != '-',
        forall|k: int| 0 <= k < b.len() ==> #[trigger] b[k] != '-',
    ensures
        range_of(a.push('-') + b) == match (hex_address(a), hex_address(b)) {
            (Some(start), Some(end)) => Some((start, end)),
            _ => None,
        },
{
    let s = a.push('-') + b;
    let n = a.len() as int;
    assert forall|k: int| 0 <= k < n implies s[k] != '-' by {
        assert(s[k] == a[k]);
    }
    assert(s[n] == '-');
    lemma_dash(s, 0, n);
    assert forall|k: int| n + 1 <= k < s.len() implies s[k] != '-' by {
        assert(s[k] == b[k - n - 1]);
    }
    lemma_dash(s, n + 1, s.len() as int);
    assert(s.take(n) =~= a);
    assert(s.subrange(n + 1, s.len() as int) =~= b);
}

/// Every line with at least five words is a mapping, from the range in its first word, and nothing
/// else is.
pub proof fn lemma_mappings_are_lines(lines: Seq<Seq<char>>, n: int, range: (usize, usize))
    requires
        0 <= n <= lines.len(),
        maps_after(lines, n) is Some,
    ensures
        maps_after(lines, n)->Some_0.mappings.contains(range) <==> exists|i: int|
            0 <= i < n && text::runs(#[trigger] lines[i], space()).len() >= 5 && range_of(
                text::runs(lines[i], space())[0],
            ) == Some(range),
    decreases n,
{
    if n > 0 {
        lemma_mappings_are_lines(lines, n - 1, range);
        let line = lines[n - 1];
        let words = text::runs(line, space());
        let before = maps_after(lines, n - 1)->Some_0.mappings;
        let all = maps_after(lines, n)->Some_0.mappings;
        if all.contains(range) {
            let k = choose|k: int| 0 <= k < all.len() && all[k] == range;
            if words.len() >= 5 && k == before.len() {
                assert(range_of(text::runs(lines[n - 1], space())[0]) == Some(range));
            } else {
                assert(before[k] == range);
                assert(before.contains(range));
            }
        }
        if exists|i: int|
            0 <= i < n && text::runs(#[trigger] lines[i], space()).len() >= 5 && range_of(
                text::runs(lines[i], space())[0],
            ) == Some(range) {
            let i = choose|i: int|
                0 <= i < n && text::runs(#[trigger] lines[i], space()).len() >= 5 && range_of(
                    text::runs(lines[i], space())[0],
                ) == Some(range);
            if i == n - 1 {
                assert(all[before.len() as int] == range);
            } else {
                assert(before.contains(range));
                let k = choose|k: int| 0 <= k < before.len() && before[k] == range;
                assert(all[k] == range);
            }
        }
    } else {
        assert(maps_after(lines, n)->Some_0.mappings.len() == 0);
    }
}

proof fn lemma_first_lines(lines: Seq<Seq<char>>, line: Seq<char>, n: int)
    requires
        0 <= n <= lines.len(),
    ensures
        maps_after(lines.push(line), n) == maps_after(lines, n),
    decreases n,
{
    if n > 0 {
        lemma_first_lines(lines, line, n - 1);
        assert(lines.push(line)[n - 1] == lines[n - 1]);
    }
}

/// One more line adds the range in its first word to the mappings if it has at least five words, and
/// is passed over if it has fewer. A line that is a mapping and has no range there makes the whole
/// unreadable.
pub proof fn lemma_one_more_line(s: Seq<char>, line: Seq<char>)
    requires
        maps_of(s) is Some,
        line.len() > 0,
        forall|k: int| 0 <= k < line.len() ==> #[trigger] line[k] != '\n',
    ensures
        ({
            let before = maps_of(s)->Some_0;
            let after = maps_of(s.push('\n') + line);
            let words = text::runs(line, space());
            &&& words.len() < 5 ==> after == Some(before)
            &&& words.len() >= 5 && range_of(words[0]) is None ==> after is None
            &&& words.len() >= 5 && range_of(words[0]) is Some ==> after is Some
                && after->Some_0.mappings == before.mappings.push(range_of(words[0])->Some_0)
        }),
{
    let lines = text::runs(s, newline());
    assert forall|i: int| 0 <= i < line.len() implies !newline()(#[trigger] line[i]) by {}
    text::lemma_last_run(s, '\n', line, newline());
    lemma_first_lines(lines, line, lines.len() as int);
    assert(lines.push(line)[lines.len() as int] == line);
}

/// The start of the mapping that is named `[vdso]` is told, and that of no other.
pub proof fn lemma_vdso_is_found(lines: Seq<Seq<char>>, n: int, i: int)
    requires
        0 <= i < n <= lines.len(),
        maps_after(lines, n) is Some,
        text::runs(lines[i], space()).len() >= 5,
        forall|k: int|
            0 <= k < n && text::runs(#[trigger] lines[k], space()).len() >= 5 ==> (text::runs(
                lines[k],
                space(),
            ).last() == "[vdso]"@ <==> k == i),
    ensures
        range_of(text::runs(lines[i], space())[0]) is Some,
        maps_after(lines, n)->Some_0.vdso == Some(
            range_of(text::runs(lines[i], space())[0])->Some_0.0,
        ),
    decreases n,
{
    if i < n - 1 {
        lemma_vdso_is_found(lines, n - 1, i);
    } else {
        assert(text::runs(lines[n - 1], space()).last() == "[vdso]"@);
    }
}

/// A thread blocks only while the word is the expected one, and for the rest of the time that it
/// has. After it was woken spuriously it blocks again. It has timed out when more time has passed,
/// or when waiting for the rest of it ended so.
pub proof fn lemma_blocking(
    expected: u32,
    word: u32,
    timeout: u64,
    elapsed: u64,
    first_time: bool,
)
    requires
        word != expected,
    ensures
        block_after(expected, None, first_time, BlockPhase::ReadWord, BlockEvent::Word(word)).1 == (
        BlockPhase::Finished { outcome: BlockOutcome::ImmediatelyWokenUp }),
        block_after(expected, None, first_time, BlockPhase::ReadWord, BlockEvent::Word(expected)).1
            == (BlockPhase::Wait { timeout: None }),
        block_after(
            expected,
            Some(timeout),
            first_time,
            BlockPhase::ReadWord,
            BlockEvent::Word(expected),
        ).1 is ReadClock,
        elapsed <= timeout ==> block_after(
            expected,
            Some(timeout),
            first_time,
            BlockPhase::ReadClock,
            BlockEvent::Elapsed(elapsed),
        ).1 == (BlockPhase::Wait { timeout: Some((timeout - elapsed) as u64) }),
        elapsed > timeout ==> block_after(
            expected,
            Some(timeout),
            first_time,
            BlockPhase::ReadClock,
            BlockEvent::Elapsed(elapsed),
        ).1 == (BlockPhase::Finished { outcome: BlockOutcome::TimedOut }),
        block_after(
            expected,
            Some(timeout),
            first_time,
            BlockPhase::Wait { timeout: Some(elapsed) },
            BlockEvent::TimedOut,
        ).1 == (BlockPhase::Finished { outcome: BlockOutcome::TimedOut }),
        block_after(
            expected,
            None,
            first_time,
            BlockPhase::Wait { timeout: None },
            BlockEvent::Returned,
        ).1 is Claim,
        block_after(expected, None, first_time, BlockPhase::Claim, BlockEvent::Claimed(true)).1 == (
        BlockPhase::Finished { outcome: BlockOutcome::Unblocked }),
        block_after(expected, None, first_time, BlockPhase::Claim, BlockEvent::Claimed(false)) == (
            false,
            BlockPhase::Wait { timeout: None },
        ),
        block_after(
            expected,
            Some(timeout),
            first_time,
            BlockPhase::Claim,
            BlockEvent::Claimed(false),
        ).1 is ReadClock,
        block_after(
            expected,
            None,
            true,
            BlockPhase::Wait { timeout: None },
            BlockEvent::NotZero,
        ).1 is ReadWordAgain,
        block_after(
            expected,
            None,
            false,
            BlockPhase::Wait { timeout: None },
            BlockEvent::NotZero,
        ).1 is Claim,
{
}

/// A waiter may go on exactly if there is a waker (0x80000000) that has announced more wakeups than
/// were used, and uses one of them.
pub proof fn lemma_wakeups_are_claimed(word: u32)
    ensures
        claimed(word) is Some <==> word & 0x8000_0000 != 0 && word & 0x3fff_ffff != 0,
        claimed(word) is Some ==> claimed(word)->Some_0 == word - 1,
{
    assert(word & 0x3fff_ffff > 0 ==> word > 0) by (bit_vector);
}

/// A waker finishes once all that it has woken have gone on: no more wakeups are announced than could
/// not be used. Then there is no waker any more.
pub proof fn lemma_wakers_finish(word: u32, remain: u32)
    ensures
        finished(word, remain) is Some <==> word & 0x3fff_ffff <= remain,
        finished(word, remain) is Some ==> finished(word, remain)->Some_0 == 0,
{
}

/// A waker announces as many wakeups as it was asked for, at most 0x3fffffff, wakes as many of the
/// waiters as there are, and says how many that were.
pub proof fn lemma_waking(n: usize, waiting: u32)
    requires
        0 < n,
    ensures
        wake_limit(n) == if n <= 0x3fff_ffff {
            n as int
        } else {
            0x3fff_ffff
        },
        ({
            let limit = wake_limit(n);
            let locked = wake_after(limit, WakePhase::Requeue, WakeEvent::Requeued);
            let waking = wake_after(limit, locked, WakeEvent::Exchanged(true));
            let woken = wake_after(limit, waking, WakeEvent::WokenOrRequeued(waiting));
            let ended = wake_after(limit, woken, WakeEvent::Exchanged(true));
            &&& locked is Lock
            &&& count_of(locked->word) == limit
            &&& has_waker(locked->word)
            &&& waking is Wake
            &&& waking->n == limit
            &&& woken is Unlock
            &&& ended is Finished
            &&& ended->Finished_woken <= limit
            &&& ended->Finished_woken <= waiting
            &&& ended->Finished_woken == limit || ended->Finished_woken == waiting
        }),
{
    lemma_waker_word(wake_limit(n));
}

} // verus!
