//! The per-user login entry that starts the application with Windows, and
//! the window opacity setting.
use vstd::prelude::*;

verus! {

/// The argument that makes the application start hidden in the tray.
pub const START_MINIMIZED_ARGUMENT: &'static str = "--minimized";

/// The highest transparency the window accepts, so that it stays easy to find.
pub const MAX_TRANSPARENCY_PERCENT: u8 = 80;

pub const QUOTE: u16 = 34;
pub const SPACE: u16 = 32;
pub const TAB: u16 = 9;

/// UTF-16 code units of ASCII text.
pub open spec fn ascii_units(text: Seq<char>) -> Seq<u16> {
    text.map(|i: int, c: char| c as u16)
}

/// The command registered for login: the quoted executable path, the
/// minimized argument when asked for, and a terminating zero.
pub open spec fn spec_startup_command(executable: Seq<u16>, minimized: bool) -> Seq<u16> {
    seq![QUOTE] + executable + seq![QUOTE] + (if minimized {
        seq![SPACE] + ascii_units(START_MINIMIZED_ARGUMENT@)
    } else {
        Seq::empty()
    }) + seq![0u16]
}

fn push_all(target: &mut Vec<u16>, units: &[u16])
    ensures
        final(target)@ == old(target)@ + units@,
{
    let mut index: usize = 0;
    while index < units.len()
        invariant
            index <= units@.len(),
            target@ == old(target)@ + units@.subrange(0, index as int),
        decreases units@.len() - index,
    {
        target.push(units[index]);
        index = index + 1;
        assert(units@.subrange(0, index as int) == units@.subrange(0, index - 1).push(
            units@[index - 1],
        ));
    }
    assert(units@.subrange(0, units@.len() as int) == units@);
}

fn push_ascii(target: &mut Vec<u16>, text: &str)
    requires
        vstd::string::is_ascii(text),
    ensures
        final(target)@ == old(target)@ + ascii_units(text@),
{
    let bytes = text.as_bytes();
    proof {
        vstd::string::is_ascii_spec_bytes(text);
    }
    let mut index: usize = 0;
    while index < bytes.len()
        invariant
            index <= bytes@.len(),
            bytes@.len() == text@.len(),
            forall|i: int| 0 <= i < bytes@.len() ==> bytes@[i] == text@[i] as u8,
            vstd::string::is_ascii(text),
            target@ == old(target)@ + ascii_units(text@).subrange(0, index as int),
        decreases bytes@.len() - index,
    {
        let byte = bytes[index];
        assert((text@[index as int] as u16) == (byte as u16)) by {
            vstd::utf8::is_ascii_chars_nat_bound(text@);
            assert((text@[index as int] as nat) < 128);
        }
        target.push(byte as u16);
        index = index + 1;
        assert(ascii_units(text@).subrange(0, index as int) == ascii_units(text@).subrange(
            0,
            index - 1,
        ).push(text@[index - 1] as u16));
    }
    assert(ascii_units(text@).subrange(0, text@.len() as int) == ascii_units(text@));
}

/// The login command for `executable`, a path as UTF-16 code units.
pub fn startup_command(executable: &[u16], minimized: bool) -> (r: Vec<u16>)
    ensures
        r@ == spec_startup_command(executable@, minimized),
{
    let mut command: Vec<u16> = Vec::new();
    command.push(QUOTE);
    push_all(&mut command, executable);
    command.push(QUOTE);
    if minimized {
        command.push(SPACE);
        proof {
            reveal_strlit("--minimized");
        }
        push_ascii(&mut command, START_MINIMIZED_ARGUMENT);
    }
    command.push(0);
    proof {
        assert(command@ == spec_startup_command(executable@, minimized));
    }
    command
}


/// Windows' `ERROR_SUCCESS` registry status.
pub const REGISTRY_SUCCESS: u32 = 0;

/// Windows' `ERROR_FILE_NOT_FOUND` registry status: the login value is absent.
pub const REGISTRY_VALUE_MISSING: u32 = 2;

/// Reading the login value: `Ok(true)` when it exists, `Ok(false)` when it
/// is absent, otherwise the failing status.
pub fn login_value_read(status: u32) -> (r: Result<bool, u32>)
    ensures
        r == if status == REGISTRY_SUCCESS {
            Ok::<bool, u32>(true)
        } else if status == REGISTRY_VALUE_MISSING {
            Ok(false)
        } else {
            Err(status)
        },
{
    if status == REGISTRY_SUCCESS {
        Ok(true)
    } else if status == REGISTRY_VALUE_MISSING {
        Ok(false)
    } else {
        Err(status)
    }
}

/// Removing the login value succeeds also when there was none.
pub fn login_value_removed(status: u32) -> (r: Result<(), u32>)
    ensures
        r == if status == REGISTRY_SUCCESS || status == REGISTRY_VALUE_MISSING {
            Ok::<(), u32>(())
        } else {
            Err(status)
        },
{
    if status == REGISTRY_SUCCESS || status == REGISTRY_VALUE_MISSING {
        Ok(())
    } else {
        Err(status)
    }
}

/// Writing the login value succeeds only on `REGISTRY_SUCCESS`.
pub fn login_value_written(status: u32) -> (r: Result<(), u32>)
    ensures
        r == if status == REGISTRY_SUCCESS {
            Ok::<(), u32>(())
        } else {
            Err(status)
        },
{
    if status == REGISTRY_SUCCESS {
        Ok(())
    } else {
        Err(status)
    }
}

/// The byte size of a command of `units` UTF-16 units (saturating at
/// `usize::MAX`), when it fits the registry's `u32` size.
pub open spec fn spec_login_value_size(units: usize) -> Option<u32> {
    let bytes = if 2 * units <= usize::MAX {
        2 * units
    } else {
        usize::MAX as int
    };
    if bytes <= u32::MAX {
        Some(bytes as u32)
    } else {
        None
    }
}

pub fn login_value_size(units: usize) -> (r: Option<u32>)
    ensures
        r == spec_login_value_size(units),
{
    let bytes: usize = if units <= usize::MAX / 2 {
        2 * units
    } else {
        usize::MAX
    };
    if bytes as u64 <= u32::MAX as u64 {
        Some(bytes as u32)
    } else {
        None
    }
}

/// The first index at or after `from` that holds `a` or `b`, or the length
/// when there is none.
pub open spec fn find_unit(units: Seq<u16>, from: int, a: u16, b: u16) -> int
    decreases units.len() - from,
{
    if from >= units.len() || from < 0 {
        units.len() as int
    } else if units[from] == a || units[from] == b {
        from
    } else {
        find_unit(units, from + 1, a, b)
    }
}

fn find_unit_exec(units: &Vec<u16>, from: usize, a: u16, b: u16) -> (r: usize)
    requires
        from <= units@.len(),
    ensures
        r == find_unit(units@, from as int, a, b),
        from <= r <= units@.len(),
{
    let mut index: usize = from;
    while index < units.len()
        invariant
            from <= index <= units@.len(),
            find_unit(units@, index as int, a, b) == find_unit(units@, from as int, a, b),
        decreases units@.len() - index,
    {
        if units[index] == a || units[index] == b {
            return index;
        }
        index = index + 1;
    }
    index
}

fn copy_range(units: &[u16], start: usize, end: usize) -> (r: Vec<u16>)
    requires
        start <= end <= units@.len(),
    ensures
        r@ == units@.subrange(start as int, end as int),
{
    let mut copy: Vec<u16> = Vec::new();
    let mut index: usize = start;
    while index < end
        invariant
            start <= index <= end,
            end <= units@.len(),
            copy@ == units@.subrange(start as int, index as int),
        decreases end - index,
    {
        copy.push(units[index]);
        index = index + 1;
        assert(units@.subrange(start as int, index as int) == units@.subrange(
            start as int,
            index - 1,
        ).push(units@[index - 1]));
    }
    copy
}

/// A registered command up to its first terminating zero.
pub open spec fn command_line(command: Seq<u16>) -> Seq<u16> {
    command.subrange(0, find_unit(command, 0, 0, 0))
}

/// The executable a registered login command starts: the text between the
/// leading quote and the next one, which must end the command or be followed
/// by a blank; or, unquoted, the text before the first blank. Empty paths and
/// unterminated quotes name no executable.
pub open spec fn spec_startup_command_executable(command: Seq<u16>) -> Option<Seq<u16>> {
    let line = command_line(command);
    let path = if line.len() > 0 && line[0] == QUOTE {
        let closing = find_unit(line, 1, QUOTE, QUOTE);
        if closing >= line.len() {
            None
        } else if closing + 1 < line.len() && line[closing + 1] != SPACE && line[closing + 1]
            != TAB {
            None
        } else {
            Some(line.subrange(1, closing))
        }
    } else {
        Some(line.subrange(0, find_unit(line, 0, SPACE, TAB)))
    };
    match path {
        Some(path) => if path.len() > 0 {
            Some(path)
        } else {
            None
        },
        None => None,
    }
}

/// The executable path named by a registered login command.
pub fn startup_command_executable(command: &[u16]) -> (r: Option<Vec<u16>>)
    ensures
        match r {
            Some(path) => spec_startup_command_executable(command@) == Some(path@),
            None => spec_startup_command_executable(command@) is None,
        },
{
    let whole = copy_range(command, 0, command.len());
    assert(whole@ == command@);
    let line_end = find_unit_exec(&whole, 0, 0, 0);
    let line = copy_range(command, 0, line_end);
    let ghost spec_line = command_line(command@);
    assert(line@ == spec_line);
    let path = if line.len() > 0 && line[0] == QUOTE {
        let closing = find_unit_exec(&line, 1, QUOTE, QUOTE);
        if closing >= line.len() {
            return None;
        }
        if closing + 1 < line.len() && line[closing + 1] != SPACE && line[closing + 1] != TAB {
            return None;
        }
        copy_range(line.as_slice(), 1, closing)
    } else {
        let end = find_unit_exec(&line, 0, SPACE, TAB);
        copy_range(line.as_slice(), 0, end)
    };
    if path.len() > 0 {
        Some(path)
    } else {
        None
    }
}

/// The window alpha for a transparency percentage, capped at
/// `MAX_TRANSPARENCY_PERCENT`: 255 × (100 − percent) / 100, rounded to the
/// nearest integer with halves rounded up.
pub open spec fn spec_transparency_alpha(transparency_percent: u8) -> int {
    let capped = if transparency_percent < MAX_TRANSPARENCY_PERCENT {
        transparency_percent as int
    } else {
        MAX_TRANSPARENCY_PERCENT as int
    };
    (2 * 255 * (100 - capped) + 100) / 200
}

pub fn transparency_alpha(transparency_percent: u8) -> (r: u8)
    ensures
        r == spec_transparency_alpha(transparency_percent),
{
    let capped: u32 = if transparency_percent < MAX_TRANSPARENCY_PERCENT {
        transparency_percent as u32
    } else {
        MAX_TRANSPARENCY_PERCENT as u32
    };
    let alpha: u32 = (2 * 255 * (100 - capped) + 100) / 200;
    assert(alpha <= 255) by (nonlinear_arith)
        requires
            alpha == (2 * 255 * (100 - capped) + 100) / 200,
            capped <= 100,
    ;
    alpha as u8
}


proof fn lemma_find_unit_skips(units: Seq<u16>, from: int, to: int, a: u16, b: u16)
    requires
        0 <= from <= to <= units.len(),
        forall|k: int| from <= k < to ==> units[k] != a && units[k] != b,
    ensures
        find_unit(units, from, a, b) == find_unit(units, to, a, b),
    decreases to - from,
{
    if from < to {
        lemma_find_unit_skips(units, from + 1, to, a, b);
    }
}

/// A login command built for a path names that same path, whether or not it
/// asks to start minimized. A path holds neither a zero unit nor a quote.
pub proof fn lemma_startup_command_names_its_executable(executable: Seq<u16>, minimized: bool)
    requires
        executable.len() > 0,
        forall|i: int| 0 <= i < executable.len() ==> executable[i] != 0 && executable[i] != QUOTE,
    ensures
        spec_startup_command_executable(spec_startup_command(executable, minimized)) == Some(
            executable,
        ),
{
    reveal_strlit("--minimized");
    let n = executable.len() as int;
    let argument = if minimized {
        seq![SPACE] + ascii_units(START_MINIMIZED_ARGUMENT@)
    } else {
        Seq::<u16>::empty()
    };
    let line = seq![QUOTE] + executable + seq![QUOTE] + argument;
    let command = spec_startup_command(executable, minimized);
    assert(command == line + seq![0u16]);
    assert forall|k: int| 0 <= k < line.len() implies line[k] != 0 by {
        if k > n + 1 {
            assert(minimized);
            if k > n + 2 {
                let c = START_MINIMIZED_ARGUMENT@[k - n - 3];
                assert(line[k] == c as u16);
            }
        }
    }
    assert forall|k: int| 0 <= k < line.len() implies command[k] != 0u16 by {
        assert(command[k] == line[k]);
    }
    lemma_find_unit_skips(command, 0, line.len() as int, 0, 0);
    assert(command_line(command) == line);
    assert forall|k: int| 1 <= k < n + 1 implies line[k] != QUOTE by {
        assert(line[k] == executable[k - 1]);
    }
    lemma_find_unit_skips(line, 1, n + 1, QUOTE, QUOTE);
    assert(find_unit(line, 1, QUOTE, QUOTE) == n + 1);
    if minimized {
        assert(line[n + 2] == SPACE);
    } else {
        assert(line.len() == n + 2);
    }
    assert(line.subrange(1, n + 1) == executable);
}

/// However high the requested transparency, the window keeps at least 20%
/// opacity (an alpha of 51), and more transparency never means more opacity.
pub proof fn lemma_transparency_alpha_is_capped(low: u8, high: u8)
    requires
        low <= high,
    ensures
        51 <= spec_transparency_alpha(high) <= spec_transparency_alpha(low) <= 255,
{
    let c_low: int = if low < MAX_TRANSPARENCY_PERCENT {
        low as int
    } else {
        80
    };
    let c_high: int = if high < MAX_TRANSPARENCY_PERCENT {
        high as int
    } else {
        80
    };
    assert(0 <= c_low <= c_high <= 80);
    let n_low = 2 * 255 * (100 - c_low) + 100;
    let n_high = 2 * 255 * (100 - c_high) + 100;
    assert(10_300 <= n_high <= n_low <= 51_100) by (nonlinear_arith)
        requires
            0 <= c_low <= c_high <= 80,
            n_low == 2 * 255 * (100 - c_low) + 100,
            n_high == 2 * 255 * (100 - c_high) + 100,
    ;
    vstd::arithmetic::div_mod::lemma_div_is_ordered(n_high, n_low, 200);
    vstd::arithmetic::div_mod::lemma_div_is_ordered(10_300, n_high, 200);
    vstd::arithmetic::div_mod::lemma_div_is_ordered(n_low, 51_100, 200);
}

/// The search for `a` or `b` stops at the first unit from `from` on that is
/// one of them, or at the end.
proof fn lemma_find_unit_first(units: Seq<u16>, from: int, a: u16, b: u16)
    requires
        0 <= from <= units.len(),
    ensures
        from <= find_unit(units, from, a, b) <= units.len(),
        forall|k: int|
            from <= k < find_unit(units, from, a, b) ==> units[k] != a && units[k] != b,
        find_unit(units, from, a, b) < units.len() ==> (units[find_unit(units, from, a, b)] == a
            || units[find_unit(units, from, a, b)] == b),
    decreases units.len() - from,
{
    if from < units.len() && !(units[from] == a || units[from] == b) {
        lemma_find_unit_first(units, from + 1, a, b);
    }
}

/// An unquoted registered command names the executable that ends at the
/// first blank: the path is a prefix of the command, holds no space, tab or
/// zero unit, and is followed by a space, a tab, the terminating zero or the
/// end. There is no path exactly when the command begins with a blank or ends
/// at once.
pub proof fn lemma_unquoted_executable_ends_at_first_blank(command: Seq<u16>)
    requires
        command.len() > 0,
        command[0] != QUOTE,
    ensures
        match spec_startup_command_executable(command) {
            Some(path) => {
                &&& 0 < path.len() <= command.len()
                &&& path == command.subrange(0, path.len() as int)
                &&& forall|i: int|
                    0 <= i < path.len() ==> path[i] != SPACE && path[i] != TAB && path[i] != 0
                &&& path.len() < command.len() ==> (command[path.len() as int] == SPACE
                    || command[path.len() as int] == TAB || command[path.len() as int] == 0)
            },
            None => command[0] == SPACE || command[0] == TAB || command[0] == 0,
        },
{
    let zero = find_unit(command, 0, 0, 0);
    lemma_find_unit_first(command, 0, 0, 0);
    let line = command.subrange(0, zero);
    assert(line == command_line(command));
    lemma_find_unit_first(line, 0, SPACE, TAB);
    let end = find_unit(line, 0, SPACE, TAB);
    let path = line.subrange(0, end);
    assert(path == command.subrange(0, end));
    assert forall|i: int| 0 <= i < path.len() implies path[i] != SPACE && path[i] != TAB
        && path[i] != 0 by {
        assert(path[i] == line[i]);
        assert(line[i] == command[i]);
    }
    if end < line.len() {
        assert(command[end] == line[end]);
    }
    if line.len() > 0 {
        assert(line[0] == command[0]);
    }
}

} // verus!
