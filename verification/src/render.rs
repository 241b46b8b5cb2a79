//! Human-readable rendering of a record's numeric fields, for
//! diagnostics.

use vstd::prelude::*;
use vstd::string::StringExecFns;

use crate::codec::EthRebasedEvent;

verus! {

/// The character for one decimal digit.
pub open spec fn digit_char(d: int) -> char
    recommends
        0 <= d <= 9,
{
    if d == 0 {
        '0'
    } else if d == 1 {
        '1'
    } else if d == 2 {
        '2'
    } else if d == 3 {
        '3'
    } else if d == 4 {
        '4'
    } else if d == 5 {
        '5'
    } else if d == 6 {
        '6'
    } else if d == 7 {
        '7'
    } else if d == 8 {
        '8'
    } else {
        '9'
    }
}

/// The decimal representation of a value: most significant digit first,
/// no leading zeros, a single `'0'` for zero.
pub open spec fn dec_str(n: nat) -> Seq<char>
    decreases n,
{
    if n < 10 {
        seq![digit_char(n as int)]
    } else {
        dec_str(n / 10) + seq![digit_char((n % 10) as int)]
    }
}

/// The characters of a digit sequence that was collected least
/// significant digit first.
pub open spec fn chars_of_rev(rev: Seq<u8>) -> Seq<char> {
    Seq::new(rev.len(), |i: int| digit_char(rev[rev.len() - 1 - i] as int))
}

/// Appends the decimal representation of `n`.
fn append_dec(out: &mut String, n: u128)
    ensures
        final(out)@ == old(out)@ + dec_str(n as nat),
{
    let mut rev: Vec<u8> = Vec::new();
    let mut v: u128 = n;
    proof {
        assert(dec_str(n as nat) =~= dec_str(v as nat) + chars_of_rev(rev@));
    }
    loop
        invariant_except_break
            dec_str(n as nat) == dec_str(v as nat) + chars_of_rev(rev@),
            forall|i: int| 0 <= i < rev@.len() ==> rev@[i] <= 9,
        ensures
            dec_str(n as nat) == chars_of_rev(rev@),
            forall|i: int| 0 <= i < rev@.len() ==> rev@[i] <= 9,
        decreases v,
    {
        let ghost v0 = v;
        let ghost rev0 = rev@;
        let d = (v % 10) as u8;
        rev.push(d);
        v = v / 10;
        proof {
            vstd::arithmetic::div_mod::lemma_fundamental_div_mod(v0 as int, 10);
            assert(chars_of_rev(rev0.push(d)) =~= seq![digit_char(d as int)] + chars_of_rev(rev0));
        }
        if v == 0 {
            proof {
                assert(v0 < 10);
                assert(dec_str(v0 as nat) =~= seq![digit_char(v0 as int)]);
                assert(dec_str(n as nat) =~= chars_of_rev(rev@));
            }
            break ;
        }
        proof {
            assert(v0 >= 10);
            assert(dec_str(v0 as nat) == dec_str((v0 as nat) / 10) + seq![
                digit_char(((v0 as nat) % 10) as int),
            ]);
            assert(dec_str(n as nat) =~= dec_str(v as nat) + chars_of_rev(rev@));
            vstd::arithmetic::div_mod::lemma_div_is_strictly_smaller(v0 as int, 10);
        }
    }
    let ghost appended = chars_of_rev(rev@);
    let mut j: usize = rev.len();
    while j > 0
        invariant
            j <= rev@.len(),
            forall|i: int| 0 <= i < rev@.len() ==> rev@[i] <= 9,
            appended == chars_of_rev(rev@),
            out@ == old(out)@ + appended.subrange(0, rev@.len() - j),
        decreases j,
    {
        j = j - 1;
        let ghost done = appended.subrange(0, rev@.len() - j - 1);
        let d = rev[j];
        if d == 0 {
            out.append("0");
            proof {
                reveal_strlit("0");
                assert(out@ =~= old(out)@ + done + seq![digit_char(0)]);
            }
        } else if d == 1 {
            out.append("1");
            proof {
                reveal_strlit("1");
                assert(out@ =~= old(out)@ + done + seq![digit_char(1)]);
            }
        } else if d == 2 {
            out.append("2");
            proof {
                reveal_strlit("2");
                assert(out@ =~= old(out)@ + done + seq![digit_char(2)]);
            }
        } else if d == 3 {
            out.append("3");
            proof {
                reveal_strlit("3");
                assert(out@ =~= old(out)@ + done + seq![digit_char(3)]);
            }
        } else if d == 4 {
            out.append("4");
            proof {
                reveal_strlit("4");
                assert(out@ =~= old(out)@ + done + seq![digit_char(4)]);
            }
        } else if d == 5 {
            out.append("5");
            proof {
                reveal_strlit("5");
                assert(out@ =~= old(out)@ + done + seq![digit_char(5)]);
            }
        } else if d == 6 {
            out.append("6");
            proof {
                reveal_strlit("6");
                assert(out@ =~= old(out)@ + done + seq![digit_char(6)]);
            }
        } else if d == 7 {
            out.append("7");
            proof {
                reveal_strlit("7");
                assert(out@ =~= old(out)@ + done + seq![digit_char(7)]);
            }
        } else if d == 8 {
            out.append("8");
            proof {
                reveal_strlit("8");
                assert(out@ =~= old(out)@ + done + seq![digit_char(8)]);
            }
        } else {
            out.append("9");
            proof {
                reveal_strlit("9");
                assert(out@ =~= old(out)@ + done + seq![digit_char(9)]);
            }
        }
        proof {
            assert(done + seq![digit_char(rev@[j as int] as int)] =~= appended.subrange(
                0,
                rev@.len() - j,
            ));
        }
    }
    proof {
        assert(appended.subrange(0, rev@.len() as int) =~= appended);
        assert(out@ =~= old(out)@ + dec_str(n as nat));
    }
}

/// The rendered diagnostic line: each numeric field, in declared order,
/// as `name: value`, separated by `; `.
pub open spec fn render_spec(r: EthRebasedEvent) -> Seq<char> {
    "epoch: "@ + dec_str(r.epoch as nat) + "; exchange_rate: "@ + dec_str(r.exchange_rate as nat)
        + "; cpi: "@ + dec_str(r.cpi as nat) + "; requested_supply_adjustment: "@ + dec_str(
        r.requested_supply_adjustment as nat,
    ) + "; timestamp_sec: "@ + dec_str(r.timestamp_sec as nat)
}

impl EthRebasedEvent {
    /// Renders the numeric fields as a deterministic, human-readable
    /// line for logging; the string carries no parsing contract.
    pub fn render(&self) -> (s: String)
        ensures
            s@ == render_spec(*self),
    {
        let mut s = String::new();
        s.append("epoch: ");
        append_dec(&mut s, self.epoch);
        s.append("; exchange_rate: ");
        append_dec(&mut s, self.exchange_rate);
        s.append("; cpi: ");
        append_dec(&mut s, self.cpi);
        s.append("; requested_supply_adjustment: ");
        append_dec(&mut s, self.requested_supply_adjustment);
        s.append("; timestamp_sec: ");
        append_dec(&mut s, self.timestamp_sec);
        proof {
            assert(s@ =~= render_spec(*self));
        }
        s
    }
}

} // verus!
