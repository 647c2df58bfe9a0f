//! The builtin `print`, and the references inside the strings it prints.

use vstd::prelude::*;
use crate::chars::{chars_of, name_char, run_end, string_of};
use crate::frontend::ast::{expr_views, Expr};
use crate::runtime::interpreter::expr::ExprEvaluator;
use crate::runtime::semantics::{
    evaluated, interpolated, interpolated_from, outcome_is, prefixed, printed, printed_from,
    reference_chars,
};
use crate::runtime::value::Value;

verus! {

/// Prints the arguments on one line: each is evaluated through `eval` and
/// written in turn, a string with its references replaced, with one space
/// between two of them and a line feed at the end. With no argument the
/// line is empty. Returns no value. The first error ends the call; what
/// was written before it stays written.
pub fn call(args: Vec<Expr>, eval: &mut ExprEvaluator) -> (r: Result<Value, String>)
    requires
        old(eval).wf(),
    ensures
        final(eval).wf(),
        final(eval).bindings() == old(eval).bindings(),
        outcome_is(
            r,
            old(eval).written(),
            final(eval).written(),
            printed(old(eval).bindings(), expr_views(args@)),
        ),
    decreases expr_views(args@), 0int,
{
    let ghost env = eval.bindings();
    let ghost list = expr_views(args@);
    let ghost start = eval.written();
    let ghost goal = printed_from(env, list, 0);
    if args.len() == 0 {
        eval.write("\n");
        return Ok(Value::Null);
    }
    let mut i: usize = 0;
    for arg in it: args
        invariant
            eval.wf(),
            eval.bindings() == env,
            env == old(eval).bindings(),
            list == expr_views(args@),
            list.len() <= usize::MAX,
            i == it.index(),
            list == expr_views(it.seq()),
            goal == printed_from(env, list, 0),
            start == old(eval).written(),
            goal.result == printed_from(env, list, i as int).result,
            start + goal.output == eval.written() + printed_from(env, list, i as int).output,
    {
        let ghost before = eval.written();
        assert(arg@ == list[i as int]);
        assert(decreases_to!(list => list[i as int]));
        let v = match eval.evaluate(arg) {
            Ok(v) => v,
            Err(message) => {
                return Err(message);
            },
        };
        if i > 0 {
            eval.write(" ");
        }
        let ghost first = evaluated(env, list[i as int]);
        let ghost gap = if i > 0 {
            " "@
        } else {
            Seq::empty()
        };
        assert(eval.written() =~= before + first.output + gap);
        assert(before + (first.output + gap) =~= before + first.output + gap);
        let text = match v {
            Value::String(s) => match interpolate_string(s.as_str(), eval) {
                Ok(text) => text,
                Err(message) => {
                    return Err(message);
                },
            },
            other => other.to_text(),
        };
        eval.write(text.as_str());
        proof {
            let rest = printed_from(env, list, i + 1);
            assert(eval.written() == before + first.output + gap + text@);
            assert(before + (first.output + gap + text@ + rest.output) =~= before + first.output
                + gap + text@ + rest.output);
        }
        i += 1;
    }
    eval.write("\n");
    Ok(Value::Null)
}

/// Replaces each reference `{name}` in `s` by the printed value of the
/// variable `name`, which it reads through `eval`. `{{` gives `{` and `}}`
/// gives `}`. The text that is put in is not read again.
///
/// Fails on the first reference that is not closed, that holds a character
/// which cannot stand in a name, that is empty, or whose name is not bound.
pub fn interpolate_string(s: &str, eval: &ExprEvaluator) -> (r: Result<String, String>)
    requires
        eval.wf(),
    ensures
        match interpolated(eval.bindings(), s@) {
            Ok(text) => r is Ok && r->Ok_0@ == text,
            Err(message) => r is Err && r->Err_0@ == message,
        },
{
    let chars = chars_of(s);
    let ghost env = eval.bindings();
    let ghost goal = interpolated_from(env, chars@, 0);
    let mut result = String::new();
    let mut i: usize = 0;
    assert(prefixed(result@, interpolated_from(env, chars@, 0)) == goal) by {
        match goal {
            Ok(text) => {
                assert(result@ + text =~= text);
            },
            Err(_) => {},
        }
    }
    while i < chars.len()
        invariant
            eval.wf(),
            env == eval.bindings(),
            chars@ == s@,
            i <= chars.len(),
            goal == interpolated_from(env, chars@, 0),
            prefixed(result@, interpolated_from(env, chars@, i as int)) == goal,
        decreases chars.len() - i,
    {
        let ghost before = result@;
        let ghost here = i as int;
        let ch = chars[i];
        if ch == '{' {
            if i + 1 < chars.len() && chars[i + 1] == '{' {
                result.push('{');
                i += 2;
                proof {
                    lemma_prefixed_twice(before, seq!['{'], interpolated_from(env, chars@, i as int));
                    assert(before + seq!['{'] =~= result@);
                }
            } else {
                let from = i + 1;
                let mut end = from;
                while end < chars.len() && chars[end] != '}' && name_char(chars[end])
                    invariant
                        from <= end <= chars.len(),
                        run_end(chars@, end as int, reference_chars()) == run_end(
                            chars@,
                            from as int,
                            reference_chars(),
                        ),
                    decreases chars.len() - end,
                {
                    end += 1;
                }
                if end >= chars.len() {
                    return Err(String::from_str("Unclosed variable interpolation: missing '}'"));
                }
                if chars[end] != '}' {
                    let mut message = String::from_str("Invalid character in variable name: ");
                    message.push(chars[end]);
                    return Err(message);
                }
                if end == from {
                    return Err(String::from_str("Empty variable name in interpolation"));
                }
                let var_name = string_of(&chars, from, end);
                match eval.get_variable(&var_name) {
                    Ok(value) => {
                        let text = value.to_text();
                        result.append(text.as_str());
                        i = end + 1;
                        proof {
                            lemma_prefixed_twice(
                                before,
                                text@,
                                interpolated_from(env, chars@, i as int),
                            );
                        }
                    },
                    Err(message) => {
                        return Err(message);
                    },
                }
            }
        } else if ch == '}' {
            result.push('}');
            if i + 1 < chars.len() && chars[i + 1] == '}' {
                i += 2;
            } else {
                i += 1;
            }
            proof {
                lemma_prefixed_twice(before, seq!['}'], interpolated_from(env, chars@, i as int));
                assert(before + seq!['}'] =~= result@);
            }
        } else {
            result.push(ch);
            i += 1;
            proof {
                lemma_prefixed_twice(before, seq![ch], interpolated_from(env, chars@, i as int));
                assert(before + seq![ch] =~= result@);
            }
        }
    }
    assert(result@ + Seq::<char>::empty() =~= result@);
    Ok(result)
}

/// Putting `a` before what has `b` before it puts `a + b` before it.
proof fn lemma_prefixed_twice(a: Seq<char>, b: Seq<char>, rest: Result<Seq<char>, Seq<char>>)
    ensures
        prefixed(a, prefixed(b, rest)) == prefixed(a + b, rest),
{
    match rest {
        Ok(text) => {
            assert(a + (b + text) =~= a + b + text);
        },
        Err(_) => {},
    }
}

} // verus!
