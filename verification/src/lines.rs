use vstd::prelude::*;

verus! {

/// The ways a line-range request can be rejected before any line is
/// looked at.
#[derive(Clone, Copy, Debug)]
pub enum RangeError {
    /// The start of the range lies after its end.
    StartAfterEnd,
    /// A range counted from the end must not start at line 0.
    StartZero,
}

impl RangeError {
    /// The message text of this error.
    pub open spec fn spec_message(self) -> Seq<char> {
        match self {
            RangeError::StartAfterEnd => {
                "Start line 'a' must be less than or equal to end line 'b'"@
            },
            RangeError::StartZero => "Start line 'a' must not be 0"@,
        }
    }

    /// Renders the user-visible message of this error.
    pub fn message(&self) -> (m: String)
        ensures
            m@ == self.spec_message(),
    {
        match self {
            RangeError::StartAfterEnd => {
                String::from_str("Start line 'a' must be less than or equal to end line 'b'")
            },
            RangeError::StartZero => String::from_str("Start line 'a' must not be 0"),
        }
    }
}

/// The first selected index for a 1-based inclusive start `a`, clamped to
/// the file: line numbers below 1 select from the first line.
pub open spec fn range_start(a: u32, len: int) -> int {
    if a == 0 {
        0
    } else if a - 1 < len {
        a - 1
    } else {
        len
    }
}

/// One past the last selected index for a 1-based inclusive end `b`,
/// clamped to the file.
pub open spec fn range_end(b: u32, len: int) -> int {
    if b < len {
        b as int
    } else {
        len
    }
}

/// Selects the lines with 1-based numbers `a` through `b`, both inclusive,
/// from the lines of a file; numbers beyond the file select nothing. A
/// start after the end is rejected.
pub fn lines_range(lines: &Vec<String>, a: u32, b: u32) -> (r: Result<Vec<String>, RangeError>)
    ensures
        match r {
            Err(e) => a > b && e is StartAfterEnd,
            Ok(sel) => a <= b && sel@ == lines@.subrange(
                range_start(a, lines@.len() as int),
                range_end(b, lines@.len() as int),
            ),
        },
{
    if a > b {
        return Err(RangeError::StartAfterEnd);
    }
    let len = lines.len();
    let lo: usize = if a == 0 {
        0
    } else {
        let from_a = (a - 1) as usize;
        if from_a < len {
            from_a
        } else {
            len
        }
    };
    let hi: usize = if (b as usize) < len {
        b as usize
    } else {
        len
    };
    let mut out: Vec<String> = Vec::new();
    let mut i: usize = lo;
    while i < hi
        invariant
            lo <= i <= hi || (hi < lo && i == lo),
            hi <= len,
            len == lines@.len(),
            lo == range_start(a, lines@.len() as int),
            hi == range_end(b, lines@.len() as int),
            lo <= hi ==> out@ == lines@.subrange(lo as int, i as int),
        decreases hi - i,
    {
        out.push(lines[i].clone());
        proof {
            assert(lines@.subrange(lo as int, i + 1) =~= lines@.subrange(lo as int, i as int).push(
                lines@[i as int],
            ));
        }
        i += 1;
    }
    proof {
        assert(lo <= hi);
        if i == lo && lo == hi {
            assert(out@ =~= lines@.subrange(lo as int, hi as int));
        }
    }
    Ok(out)
}

/// Selects the lines with 1-based numbers `a` through `b` counted from the
/// end of the file — 1 is the last line — returned nearest-to-the-end
/// first. A zero start or a start after the end is rejected; a start
/// beyond the whole file selects nothing.
pub fn lines_range_from_end(lines: &Vec<String>, a: u32, b: u32) -> (r: Result<
    Vec<String>,
    RangeError,
>)
    requires
        a == 0 || b < a || a > lines@.len() || b <= lines@.len(),
    ensures
        match r {
            Err(e) => {
                (a == 0 && e is StartZero) || (a > 0 && b < a && e is StartAfterEnd)
            },
            Ok(sel) => {
                &&& a > 0 && b >= a
                &&& (a > lines@.len() ==> sel@.len() == 0)
                &&& (a <= lines@.len() ==> sel@.len() == b - a + 1 && (forall|j: int|
                    0 <= j < sel@.len() ==> sel@[j] == lines@[lines@.len() - a - j]))
            },
        },
{
    if a == 0 {
        return Err(RangeError::StartZero);
    }
    if b < a {
        return Err(RangeError::StartAfterEnd);
    }
    let total = lines.len();
    if (a as usize) > total {
        return Ok(Vec::new());
    }
    let count = (b - a) as usize + 1;
    let mut out: Vec<String> = Vec::new();
    let mut j: usize = 0;
    while j < count
        invariant
            out@.len() == j,
            j <= count,
            count == b - a + 1,
            1 <= a,
            a as int <= total as int,
            b as int <= total as int,
            total == lines@.len(),
            forall|k: int| 0 <= k < j ==> out@[k] == lines@[total - a - k],
        decreases count - j,
    {
        let idx = total - (a as usize) - j;
        out.push(lines[idx].clone());
        j += 1;
    }
    Ok(out)
}

} // verus!
