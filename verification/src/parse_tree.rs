//! The parse tree the builder consumes: grammar rules, matched text, and
//! lexed literal values, as plain data.  The binary around the library
//! converts a parser's pairs into these nodes.

use vstd::prelude::*;

verus! {

/// The numeric value of a run of decimal digits.
pub open spec fn digits_val(s: Seq<char>) -> int
    decreases s.len(),
{
    if s.len() == 0 {
        0
    } else {
        digits_val(s.drop_last()) * 10 + (s.last() as int - '0' as int)
    }
}

/// A non-empty run of decimal digits.
pub open spec fn all_digits(s: Seq<char>) -> bool {
    s.len() > 0 && forall|i: int| 0 <= i < s.len() ==> '0' <= #[trigger] s[i] <= '9'
}

/// The decimal integer a piece of text denotes: an optional leading minus
/// sign, then digits; nothing if the text is not of that shape or its
/// value does not fit a 64-bit signed integer.
pub open spec fn lex_int(s: Seq<char>) -> Option<i64> {
    if all_digits(s) && digits_val(s) <= i64::MAX as int {
        Some(digits_val(s) as i64)
    } else if s.len() > 1 && s[0] == '-' && all_digits(s.drop_first()) && -digits_val(
        s.drop_first(),
    ) >= i64::MIN as int {
        Some((-digits_val(s.drop_first())) as i64)
    } else {
        None
    }
}

/// Digit runs have non-negative values.
pub proof fn lemma_digits_val_nonneg(s: Seq<char>)
    requires
        forall|i: int| 0 <= i < s.len() ==> '0' <= #[trigger] s[i] <= '9',
    ensures
        digits_val(s) >= 0,
    decreases s.len(),
{
    if s.len() == 0 {
    } else {
        assert forall|i: int|
            0 <= i < s.drop_last().len() implies '0' <= #[trigger] s.drop_last()[i] <= '9' by {
            assert(s.drop_last()[i] == s[i]);
        }
        lemma_digits_val_nonneg(s.drop_last());
    }
}

/// A digit run is worth at least any of its prefixes.
pub proof fn lemma_digits_val_mono(s: Seq<char>, k: int)
    requires
        forall|i: int| 0 <= i < s.len() ==> '0' <= #[trigger] s[i] <= '9',
        0 <= k <= s.len(),
    ensures
        digits_val(s) >= digits_val(s.take(k)),
    decreases s.len() - k,
{
    if k == s.len() {
        assert(s.take(k) =~= s);
    } else {
        lemma_digits_val_mono(s, k + 1);
        assert(s.take(k + 1).drop_last() =~= s.take(k));
        assert(s.take(k + 1).last() == s[k]);
        assert forall|i: int|
            0 <= i < s.take(k).len() implies '0' <= #[trigger] s.take(k)[i] <= '9' by {
            assert(s.take(k)[i] == s[i]);
        }
        lemma_digits_val_nonneg(s.take(k));
        assert(digits_val(s.take(k + 1)) == digits_val(s.take(k)) * 10 + (s[k] as int
            - '0' as int));
    }
}

/// Reads a decimal integer, with an optional leading minus sign, from a
/// literal's matched text: the executable mirror of [`lex_int`].
pub fn parse_int_text(s: &String) -> (r: Option<i64>)
    ensures
        r == lex_int(s@),
{
    let st = s.as_str();
    let n = st.unicode_len();
    if n == 0 {
        return None;
    }
    let neg = st.get_char(0) == '-';
    if neg && n == 1 {
        return None;
    }
    let start: usize = if neg {
        1
    } else {
        0
    };
    let ghost body = if neg {
        s@.drop_first()
    } else {
        s@
    };
    proof {
        assert(body =~= s@.subrange(start as int, n as int));
    }
    let limit: u64 = if neg {
        9223372036854775808u64
    } else {
        9223372036854775807u64
    };
    let mut acc: u64 = 0;
    let mut i: usize = start;
    proof {
        assert(body.take(0) =~= Seq::<char>::empty());
    }
    while i < n
        invariant
            st@ == s@,
            n >= 1,
            neg ==> n >= 2,
            !neg ==> s@[0] != '-',
            start <= i <= n,
            n == s@.len(),
            start == if neg {
                1int
            } else {
                0int
            },
            neg ==> s@[0] == '-',
            body == s@.subrange(start as int, n as int),
            limit == if neg {
                9223372036854775808u64
            } else {
                9223372036854775807u64
            },
            forall|j: int| 0 <= j < i - start ==> '0' <= #[trigger] body[j] <= '9',
            acc == digits_val(body.take(i - start)),
            acc <= limit,
        decreases n - i,
    {
        let c = st.get_char(i);
        if !('0' <= c && c <= '9') {
            proof {
                assert(body[i - start] == c);
                assert(!all_digits(body));
                if neg {
                    assert(s@[0] == '-' && !('0' <= '-' <= '9'));
                    assert(!all_digits(s@));
                } else {
                    assert(!all_digits(s@));
                }
            }
            return None;
        }
        let d: u64 = (c as u32 as u64) - ('0' as u32 as u64);
        proof {
            assert(d <= 9) by {
                assert('0' as u32 == 48 && c as u32 <= 57) by {
                    assert('0' <= c <= '9');
                };
            }
        }
        let ghost pre = body.take(i - start);
        proof {
            assert(body.take(i + 1 - start).drop_last() =~= pre);
            assert(body.take(i + 1 - start).last() == body[i - start]);
            assert(body[i - start] == c);
            assert(digits_val(body.take(i + 1 - start)) == acc * 10 + d);
        }
        if acc > (limit - d) / 10 {
            proof {
                assert(acc * 10 + d > limit) by (nonlinear_arith)
                    requires
                        acc > (limit - d) / 10,
                        d <= 9,
                        limit >= 9,
                ;
                assert forall|j: int|
                    0 <= j < body.len() implies '0' <= #[trigger] body[j] <= '9' || !all_digits(
                    body,
                ) by {}
                if all_digits(body) {
                    lemma_digits_val_mono(body, i + 1 - start);
                    assert(digits_val(body) > limit);
                }
                if neg {
                    assert(s@[0] == '-' && !('0' <= '-' <= '9'));
                    assert(!all_digits(s@));
                }
                if !neg {
                    assert(body =~= s@);
                }
                if !neg && all_digits(s@) {
                    assert(digits_val(s@) > i64::MAX as int);
                }
            }
            return None;
        }
        proof {
            assert(acc * 10 + d <= limit) by (nonlinear_arith)
                requires
                    acc <= (limit - d) / 10,
                    d <= 9,
                    limit >= 9,
            ;
        }
        acc = acc * 10 + d;
        i = i + 1;
    }
    proof {
        assert(body.take(n - start) =~= body);
        assert(all_digits(body));
        lemma_digits_val_nonneg(body);
        if !neg {
            assert(body =~= s@);
        }
    }
    if neg {
        proof {
            assert(s@[0] == '-' && !('0' <= '-' <= '9'));
            assert(!all_digits(s@));
        }
        if acc == 9223372036854775808u64 {
            Some(i64::MIN)
        } else {
            Some(-(acc as i64))
        }
    } else {
        Some(acc as i64)
    }
}

/// The grammar rules whose nodes the builder reads.
#[allow(non_camel_case_types)]
#[derive(Debug, Clone, Copy, PartialEq, Eq, Structural)]
pub enum Rule {
    input,
    use_stmt,
    use_lit,
    ident_list,
    node_decl,
    node_decl_head,
    node_decl_body,
    node_macro_assign,
    weights_decl,
    weights_decl_head,
    weights_decl_body,
    weights_assign,
    graph_decl,
    graph_decl_head,
    graph_decl_body,
    fn_decls,
    fn_decl,
    fn_decl_head,
    fn_decl_sig,
    fn_decl_param,
    fn_decl_args,
    fn_decl_arg,
    fn_type_sig,
    type_sig,
    type_ident_list,
    fn_call,
    fn_call_args,
    fn_call_arg,
    fn_call_param,
    field_access,
    pipes,
    block,
    stmts,
    stmt,
    expr,
    ident,
    cap_ident,
    upper_ident,
    op_assign,
    int_lit,
    float_lit,
}

/// A lexed literal payload: a float literal travels as its bit pattern,
/// lexed by the parser adapter since the core holds no floats; integer
/// literals are read from their text by the core itself.
#[derive(Debug, Clone, Copy, PartialEq, Eq, Structural)]
pub enum LitVal {
    Absent,
    Float(u64),
}

/// One node of the parse tree: its rule, the text it matched, its lexed
/// literal value if it is a literal, and its sub-nodes in order.
#[derive(Debug, PartialEq)]
pub struct ParseNode {
    pub rule: Rule,
    pub text: String,
    pub value: LitVal,
    pub children: Vec<ParseNode>,
}

} // verus!
