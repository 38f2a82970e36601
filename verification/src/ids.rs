use vstd::prelude::*;
use vstd::string::StringExecFns;

verus! {

/// View identifier.
#[derive(PartialEq, Eq, Structural, PartialOrd, Ord, Hash, Copy, Clone, Debug)]
pub struct ViewId(pub u16);

impl Default for ViewId {
    fn default() -> (id: Self)
        ensures
            id == ViewId(0),
    {
        ViewId(0)
    }
}

/// Snapshot identifier.
#[derive(PartialEq, Eq, Structural, PartialOrd, Ord, Hash, Copy, Clone, Debug)]
pub struct SnapshotId(pub usize);

impl Default for SnapshotId {
    fn default() -> (id: Self)
        ensures
            id == SnapshotId(0),
    {
        SnapshotId(0)
    }
}

/// The character of a decimal digit.
pub open spec fn digit_char(d: nat) -> char {
    if d == 0 { '0' }
    else if d == 1 { '1' }
    else if d == 2 { '2' }
    else if d == 3 { '3' }
    else if d == 4 { '4' }
    else if d == 5 { '5' }
    else if d == 6 { '6' }
    else if d == 7 { '7' }
    else if d == 8 { '8' }
    else { '9' }
}

/// The decimal writing of `n`, without leading zeros.
pub open spec fn decimal(n: nat) -> Seq<char>
    decreases n,
{
    if n < 10 {
        seq![digit_char(n)]
    } else {
        decimal(n / 10).push(digit_char(n % 10))
    }
}

fn digit_text(d: u16) -> (s: String)
    requires
        d < 10,
    ensures
        s@ == seq![digit_char(d as nat)],
{
    proof {
        reveal_strlit("0");
        reveal_strlit("1");
        reveal_strlit("2");
        reveal_strlit("3");
        reveal_strlit("4");
        reveal_strlit("5");
        reveal_strlit("6");
        reveal_strlit("7");
        reveal_strlit("8");
        reveal_strlit("9");
    }
    let s = if d == 0 { "0" }
        else if d == 1 { "1" }
        else if d == 2 { "2" }
        else if d == 3 { "3" }
        else if d == 4 { "4" }
        else if d == 5 { "5" }
        else if d == 6 { "6" }
        else if d == 7 { "7" }
        else if d == 8 { "8" }
        else { "9" };
    String::from_str(s)
}

fn decimal_text(n: u16) -> (s: String)
    ensures
        s@ == decimal(n as nat),
    decreases n,
{
    if n < 10 {
        digit_text(n)
    } else {
        let mut s = decimal_text(n / 10);
        let d = digit_text(n % 10);
        s.append(d.as_str());
        s
    }
}

impl ViewId {
    /// The identifier in decimal, as it is displayed.
    pub fn to_string(&self) -> (s: String)
        ensures
            s@ == decimal(self.0 as nat),
    {
        decimal_text(self.0)
    }
}

} // verus!
