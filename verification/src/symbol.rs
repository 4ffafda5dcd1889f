//! Symbols are "base-quote" strings, e.g. "eth-btc": splitting them into
//! their assets.

use vstd::prelude::*;
use vstd::string::*;

verus! {

/// Index of the first '-' at or after `i`, or the length if none.
pub open spec fn dash_pos(s: Seq<char>, i: int) -> int
    decreases s.len() - i,
    when 0 <= i <= s.len()
{
    if i >= s.len() || s[i] == '-' {
        i
    } else {
        dash_pos(s, i + 1)
    }
}

/// Index of the first '-' in `s`, or the length if none.
pub open spec fn spec_dash_index(s: Seq<char>) -> int {
    dash_pos(s, 0)
}

/// Whether `s` holds a '-' separator.
pub open spec fn spec_has_dash(s: Seq<char>) -> bool {
    spec_dash_index(s) < s.len()
}

/// The part before the first '-'.
pub open spec fn spec_base_asset(s: Seq<char>) -> Seq<char> {
    s.subrange(0, spec_dash_index(s))
}

/// The part after the first '-'.
pub open spec fn spec_quote_asset(s: Seq<char>) -> Seq<char> {
    s.subrange(spec_dash_index(s) + 1, s.len() as int)
}

/// Index of the first '-' in `value`, or its length if there is none.
pub fn dash_index(value: &str) -> (r: usize)
    ensures
        r == spec_dash_index(value@),
        r <= value@.len(),
{
    let len = value.unicode_len();
    let mut i: usize = 0;
    loop
        invariant_except_break
            i <= len,
            len == value@.len(),
            spec_dash_index(value@) == dash_pos(value@, i as int),
        ensures
            i == spec_dash_index(value@) && i <= len,
        decreases len - i,
    {
        if i >= len {
            break;
        }
        if value.get_char(i) == '-' {
            break;
        }
        i = i + 1;
    }
    i
}

/// Views of a "base-quote" symbol string.
pub trait SymbolExt {
    spec fn sym(&self) -> Seq<char>;

    /// Both assets of the symbol.
    fn assets<'a>(&'a self) -> (r: (&'a str, &'a str))
        requires
            spec_has_dash(self.sym()),
        ensures
            r.0@ == spec_base_asset(self.sym()),
            r.1@ == spec_quote_asset(self.sym()),
    ;

    /// The asset before the dash.
    fn base_asset<'a>(&'a self) -> (r: &'a str)
        requires
            spec_has_dash(self.sym()),
        ensures
            r@ == spec_base_asset(self.sym()),
    ;

    /// The asset after the dash.
    fn quote_asset<'a>(&'a self) -> (r: &'a str)
        requires
            spec_has_dash(self.sym()),
        ensures
            r@ == spec_quote_asset(self.sym()),
    ;
}

impl SymbolExt for str {
    open spec fn sym(&self) -> Seq<char> {
        self@
    }

    fn assets<'a>(&'a self) -> (r: (&'a str, &'a str)) {
        let i = dash_index(self);
        let len = self.unicode_len();
        (self.substring_char(0, i), self.substring_char(i + 1, len))
    }

    fn base_asset<'a>(&'a self) -> (r: &'a str) {
        let i = dash_index(self);
        self.substring_char(0, i)
    }

    fn quote_asset<'a>(&'a self) -> (r: &'a str) {
        let i = dash_index(self);
        let len = self.unicode_len();
        self.substring_char(i + 1, len)
    }
}

/// The assets of all symbols: base then quote of each, in input order; the
/// entry at an even position is the base asset of the symbol at half that
/// position, the entry after it that symbol's quote asset.
pub fn iter_assets(symbols: &Vec<String>) -> (r: Vec<String>)
    requires
        forall|k: int| 0 <= k < symbols@.len() ==> spec_has_dash(#[trigger] symbols@[k]@),
    ensures
        r@.len() == 2 * symbols@.len(),
        forall|j: int|
            0 <= j < r@.len() ==> #[trigger] r@[j]@ == if j % 2 == 0 {
                spec_base_asset(symbols@[j / 2]@)
            } else {
                spec_quote_asset(symbols@[j / 2]@)
            },
{
    let mut out: Vec<String> = Vec::new();
    let mut idx: usize = 0;
    while idx < symbols.len()
        invariant
            idx <= symbols@.len(),
            out@.len() == 2 * idx,
            forall|k: int| 0 <= k < symbols@.len() ==> spec_has_dash(#[trigger] symbols@[k]@),
            forall|j: int|
                0 <= j < out@.len() ==> #[trigger] out@[j]@ == if j % 2 == 0 {
                    spec_base_asset(symbols@[j / 2]@)
                } else {
                    spec_quote_asset(symbols@[j / 2]@)
                },
        decreases symbols@.len() - idx,
    {
        let ghost prev_out = out@;
        let sym = &symbols[idx];
        let parts = sym.as_str().assets();
        out.push(String::from_str(parts.0));
        out.push(String::from_str(parts.1));
        proof {
            assert forall|j: int| 0 <= j < out@.len() implies #[trigger] out@[j]@ == (if j % 2
                == 0 {
                spec_base_asset(symbols@[j / 2]@)
            } else {
                spec_quote_asset(symbols@[j / 2]@)
            }) by {
                if j < prev_out.len() {
                    assert(out@[j] == prev_out[j]);
                    assert(prev_out[j]@ == if j % 2 == 0 {
                        spec_base_asset(symbols@[j / 2]@)
                    } else {
                        spec_quote_asset(symbols@[j / 2]@)
                    });
                } else if j == 2 * idx {
                    assert(j % 2 == 0 && j / 2 == idx);
                } else {
                    assert(j == 2 * idx + 1 && j % 2 == 1 && j / 2 == idx);
                }
            }
        }
        idx = idx + 1;
    }
    out
}

} // verus!
