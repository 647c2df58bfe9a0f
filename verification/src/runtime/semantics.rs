//! What programs mean: evaluation, printing and execution as mathematical
//! functions of the variables and the syntax tree.

use vstd::prelude::*;
use crate::chars::{is_name_char, lemma_run_end, lemma_run_end_is, run_end};
use crate::frontend::ast::{SpecExpr, SpecStmt};
use crate::runtime::value::{display, SpecValue, Value};

verus! {

/// The variables: each bound name with its value.
pub type Bindings = Map<Seq<char>, SpecValue>;

/// No variable bound.
pub open spec fn no_bindings() -> Bindings {
    Map::empty()
}

/// What evaluating an expression gives: its value or the message of the
/// error that ended it, and the text that it printed on the way.
pub struct Outcome {
    pub result: Result<SpecValue, Seq<char>>,
    pub output: Seq<char>,
}

/// What running statements gives: the variables afterwards, `Ok` or the
/// message of the error that ended the run, and the text that was printed.
pub struct Run {
    pub bindings: Bindings,
    pub result: Result<(), Seq<char>>,
    pub output: Seq<char>,
}

/// The value of the variable `name`, or the error for a name that is not
/// bound.
pub open spec fn looked_up(env: Bindings, name: Seq<char>) -> Result<SpecValue, Seq<char>> {
    if env.contains_key(name) {
        Ok(env[name])
    } else {
        Err("Undefined variable: "@ + name)
    }
}

/// The class of characters that a reference holds between its braces.
pub open spec fn reference_chars() -> spec_fn(char) -> bool {
    |c: char| c != '}' && is_name_char(c)
}

/// `prefix` before the text of `rest`; an error stays as it is.
pub open spec fn prefixed(prefix: Seq<char>, rest: Result<Seq<char>, Seq<char>>) -> Result<
    Seq<char>,
    Seq<char>,
> {
    match rest {
        Ok(text) => Ok(prefix + text),
        Err(message) => Err(message),
    }
}

/// The text of `s` from index `i` on, with each reference `{name}` replaced
/// by the printed value of the variable `name`.
///
/// `{{` stands for `{` and `}}` for `}`; a single `}` stands for itself.
/// What is put in for a reference is not read again. The first reference
/// that is not closed, that holds a character which cannot stand in a name,
/// that is empty, or whose name is not bound, ends it with an error.
pub open spec fn interpolated_from(env: Bindings, s: Seq<char>, i: int) -> Result<
    Seq<char>,
    Seq<char>,
>
    decreases s.len() - i,
{
    if i < 0 || i >= s.len() {
        Ok(Seq::empty())
    } else if s[i] == '{' {
        if i + 1 < s.len() && s[i + 1] == '{' {
            prefixed(seq!['{'], interpolated_from(env, s, i + 2))
        } else {
            let end = run_end(s, i + 1, reference_chars());
            if end >= s.len() {
                Err("Unclosed variable interpolation: missing '}'"@)
            } else if s[end] != '}' {
                Err("Invalid character in variable name: "@.push(s[end]))
            } else if end == i + 1 {
                Err("Empty variable name in interpolation"@)
            } else {
                match looked_up(env, s.subrange(i + 1, end)) {
                    Ok(v) => {
                        proof {
                            lemma_run_end(s, i + 1, reference_chars());
                        }
                        prefixed(display(v), interpolated_from(env, s, end + 1))
                    },
                    Err(message) => Err(message),
                }
            }
        }
    } else if s[i] == '}' {
        if i + 1 < s.len() && s[i + 1] == '}' {
            prefixed(seq!['}'], interpolated_from(env, s, i + 2))
        } else {
            prefixed(seq!['}'], interpolated_from(env, s, i + 1))
        }
    } else {
        prefixed(seq![s[i]], interpolated_from(env, s, i + 1))
    }
}

/// The text of `s` with each reference `{name}` replaced by the printed
/// value of the variable `name`.
pub open spec fn interpolated(env: Bindings, s: Seq<char>) -> Result<Seq<char>, Seq<char>> {
    interpolated_from(env, s, 0)
}

/// The text that `print` writes for a value: a string with its references
/// replaced, any other value as it is printed.
pub open spec fn print_text(env: Bindings, v: SpecValue) -> Result<Seq<char>, Seq<char>> {
    match v {
        SpecValue::String(s) => interpolated(env, s),
        _ => Ok(display(v)),
    }
}

/// What evaluating `e` gives.
///
/// A literal is its value. A name is the value of the variable, and an
/// error where none is bound. A call goes to the builtin of that name, with
/// its arguments not yet evaluated.
pub open spec fn evaluated(env: Bindings, e: SpecExpr) -> Outcome
    decreases e, 0int, 0int,
{
    match e {
        SpecExpr::String(s) => Outcome { result: Ok(SpecValue::String(s)), output: Seq::empty() },
        SpecExpr::Number(n) => Outcome { result: Ok(SpecValue::Number(n)), output: Seq::empty() },
        SpecExpr::Boolean(b) => Outcome { result: Ok(SpecValue::Boolean(b)), output: Seq::empty() },
        SpecExpr::Identifier(name) => Outcome {
            result: looked_up(env, name),
            output: Seq::empty(),
        },
        SpecExpr::Call { name, args } => called(env, name, args),
    }
}

/// How what an evaluation returned and wrote stands for `o`: the output
/// has grown by what `o` printed, and the result is its value or message.
pub open spec fn outcome_is(
    r: Result<Value, String>,
    before: Seq<char>,
    after: Seq<char>,
    o: Outcome,
) -> bool {
    &&& after == before + o.output
    &&& match o.result {
        Ok(v) => r is Ok && r->Ok_0@ == v,
        Err(message) => r is Err && r->Err_0@ == message,
    }
}

/// What a call of the builtin `name` gives. `print` is the one builtin;
/// any other name is an error.
pub open spec fn called(env: Bindings, name: Seq<char>, args: Seq<SpecExpr>) -> Outcome
    decreases args, 1int, 0int,
{
    if name == "print"@ {
        printed_from(env, args, 0)
    } else {
        Outcome { result: Err("Unknown builtin: "@ + name), output: Seq::empty() }
    }
}

/// What `print` gives for its arguments from index `i` on.
///
/// Each argument is evaluated and written in turn, with one space before
/// every argument but the first, and a line feed ends the line. With no
/// argument the line is empty. The first error ends the call; what was
/// written before it stays written.
pub open spec fn printed_from(env: Bindings, args: Seq<SpecExpr>, i: int) -> Outcome
    decreases args, 0int, args.len() - i,
{
    if i < 0 || i >= args.len() {
        Outcome { result: Ok(SpecValue::Null), output: "\n"@ }
    } else {
        let first = evaluated(env, args[i]);
        match first.result {
            Err(message) => Outcome { result: Err(message), output: first.output },
            Ok(v) => {
                let gap = if i > 0 {
                    " "@
                } else {
                    Seq::empty()
                };
                match print_text(env, v) {
                    Err(message) => Outcome { result: Err(message), output: first.output + gap },
                    Ok(text) => {
                        let rest = printed_from(env, args, i + 1);
                        Outcome {
                            result: rest.result,
                            output: first.output + gap + text + rest.output,
                        }
                    },
                }
            },
        }
    }
}

/// What `print` gives for its arguments.
pub open spec fn printed(env: Bindings, args: Seq<SpecExpr>) -> Outcome {
    printed_from(env, args, 0)
}

/// What running one statement gives. `let` evaluates its expression and
/// binds the name to the value, in place of any earlier value; an
/// expression alone is evaluated and its value dropped.
pub open spec fn executed(env: Bindings, s: SpecStmt) -> Run {
    match s {
        SpecStmt::Let { name, value } => {
            let o = evaluated(env, value);
            match o.result {
                Ok(v) => Run { bindings: env.insert(name, v), result: Ok(()), output: o.output },
                Err(message) => Run { bindings: env, result: Err(message), output: o.output },
            }
        },
        SpecStmt::Expr(e) => {
            let o = evaluated(env, e);
            match o.result {
                Ok(_) => Run { bindings: env, result: Ok(()), output: o.output },
                Err(message) => Run { bindings: env, result: Err(message), output: o.output },
            }
        },
    }
}

/// How what a run returned, bound and wrote stands for `run`.
pub open spec fn run_is(
    r: Result<(), String>,
    bindings: Bindings,
    before: Seq<char>,
    after: Seq<char>,
    run: Run,
) -> bool {
    &&& bindings == run.bindings
    &&& after == before + run.output
    &&& match run.result {
        Ok(_) => r is Ok,
        Err(message) => r is Err && r->Err_0@ == message,
    }
}

/// What running the statements from index `i` on gives: each in turn, up
/// to the first error.
pub open spec fn ran_from(env: Bindings, statements: Seq<SpecStmt>, i: int) -> Run
    decreases statements.len() - i,
{
    if i < 0 || i >= statements.len() {
        Run { bindings: env, result: Ok(()), output: Seq::empty() }
    } else {
        let first = executed(env, statements[i]);
        match first.result {
            Err(message) => first,
            Ok(_) => {
                let rest = ran_from(first.bindings, statements, i + 1);
                Run {
                    bindings: rest.bindings,
                    result: rest.result,
                    output: first.output + rest.output,
                }
            },
        }
    }
}

/// What running a program gives.
pub open spec fn ran(env: Bindings, statements: Seq<SpecStmt>) -> Run {
    ran_from(env, statements, 0)
}

/// A text without braces is interpolated to itself, whatever the variables
/// are.
pub proof fn lemma_plain_text_is_kept(env: Bindings, s: Seq<char>)
    requires
        forall|k: int| 0 <= k < s.len() ==> s[k] != '{' && s[k] != '}',
    ensures
        interpolated(env, s) == Ok::<Seq<char>, Seq<char>>(s),
{
    lemma_plain_tail_is_kept(env, s, 0);
    assert(s.subrange(0, s.len() as int) =~= s);
}

/// From an index on which no brace follows, interpolation gives the rest
/// of the text as it is.
proof fn lemma_plain_tail_is_kept(env: Bindings, s: Seq<char>, i: int)
    requires
        0 <= i <= s.len(),
        forall|k: int| i <= k < s.len() ==> s[k] != '{' && s[k] != '}',
    ensures
        interpolated_from(env, s, i) == Ok::<Seq<char>, Seq<char>>(
            s.subrange(i, s.len() as int),
        ),
    decreases s.len() - i,
{
    if i < s.len() {
        lemma_plain_tail_is_kept(env, s, i + 1);
        assert(seq![s[i]] + s.subrange(i + 1, s.len() as int) =~= s.subrange(i, s.len() as int));
    } else {
        assert(s.subrange(i, s.len() as int) =~= Seq::<char>::empty());
    }
}

/// A reference to a bound variable, alone in a text, is interpolated to
/// the printed value of the variable.
pub proof fn lemma_reference_gives_value(env: Bindings, name: Seq<char>)
    requires
        name.len() > 0,
        name[0] != '{',
        forall|k: int| 0 <= k < name.len() ==> is_name_char(name[k]) && name[k] != '}',
        env.contains_key(name),
    ensures
        interpolated(env, seq!['{'] + name + seq!['}']) == Ok::<Seq<char>, Seq<char>>(
            display(env[name]),
        ),
{
    let s = seq!['{'] + name + seq!['}'];
    let end = name.len() as int + 1;
    assert forall|k: int| 1 <= k < end implies reference_chars()(#[trigger] s[k]) by {
        assert(s[k] == name[k - 1]);
    }
    assert(s[end] == '}');
    lemma_run_end_is(s, 1, end, reference_chars());
    assert(s.subrange(1, end) =~= name);
    assert(interpolated_from(env, s, end + 1) == Ok::<Seq<char>, Seq<char>>(Seq::empty()));
    assert(display(env[name]) + Seq::<char>::empty() =~= display(env[name]));
}

/// Evaluating a name reads the variable as a reference in a string does,
/// and prints nothing.
pub proof fn lemma_name_reads_variable(env: Bindings, name: Seq<char>)
    ensures
        evaluated(env, SpecExpr::Identifier(name)) == (Outcome {
            result: looked_up(env, name),
            output: Seq::empty(),
        }),
{
}

/// A name that is not bound never evaluates to a value.
pub proof fn lemma_unbound_name_is_error(env: Bindings, name: Seq<char>)
    requires
        !env.contains_key(name),
    ensures
        evaluated(env, SpecExpr::Identifier(name)).result == Err::<SpecValue, Seq<char>>(
            "Undefined variable: "@ + name,
        ),
        evaluated(env, SpecExpr::Identifier(name)).output == Seq::<char>::empty(),
{
}

/// `print` without arguments writes one empty line and gives no value.
pub proof fn lemma_print_without_arguments(env: Bindings)
    ensures
        printed(env, Seq::empty()) == (Outcome { result: Ok(SpecValue::Null), output: "\n"@ }),
{
}

/// A `print` of one argument that fails has itself written nothing: the
/// output is what evaluating the argument wrote.
pub proof fn lemma_failed_print_writes_nothing(env: Bindings, arg: SpecExpr)
    requires
        printed(env, seq![arg]).result is Err,
    ensures
        printed(env, seq![arg]).output == evaluated(env, arg).output,
{
    let args = seq![arg];
    let first = evaluated(env, args[0]);
    assert(printed_from(env, args, 1).result is Ok);
    assert(first.output + Seq::<char>::empty() =~= first.output);
}

/// A statement that is an expression alone leaves the variables as they
/// are; only `let` binds.
pub proof fn lemma_only_let_binds(env: Bindings, e: SpecExpr)
    ensures
        executed(env, SpecStmt::Expr(e)).bindings == env,
{
}

/// Binding a name to a text and then printing a reference to the name
/// writes the text and a line feed, and binds nothing else.
pub proof fn lemma_let_then_print(env: Bindings, name: Seq<char>, text: Seq<char>)
    requires
        name.len() > 0,
        name[0] != '{',
        forall|k: int| 0 <= k < name.len() ==> is_name_char(name[k]) && name[k] != '}',
    ensures
        ran(
            env,
            seq![
                SpecStmt::Let { name, value: SpecExpr::String(text) },
                SpecStmt::Expr(
                    SpecExpr::Call {
                        name: "print"@,
                        args: seq![SpecExpr::String(seq!['{'] + name + seq!['}'])],
                    },
                ),
            ],
        ) == (Run {
            bindings: env.insert(name, SpecValue::String(text)),
            result: Ok(()),
            output: text + "\n"@,
        }),
{
    let bound = env.insert(name, SpecValue::String(text));
    let reference = seq!['{'] + name + seq!['}'];
    let args = seq![SpecExpr::String(reference)];
    let show = SpecStmt::Expr(SpecExpr::Call { name: "print"@, args });
    let program = seq![SpecStmt::Let { name, value: SpecExpr::String(text) }, show];
    lemma_reference_gives_value(bound, name);
    assert(printed_from(bound, args, 1) == (Outcome {
        result: Ok(SpecValue::Null),
        output: "\n"@,
    }));
    assert(evaluated(bound, args[0]) == (Outcome {
        result: Ok(SpecValue::String(reference)),
        output: Seq::empty(),
    }));
    assert(print_text(bound, SpecValue::String(reference)) == Ok::<Seq<char>, Seq<char>>(text));
    assert(Seq::<char>::empty() + Seq::<char>::empty() + text + "\n"@ =~= text + "\n"@);
    assert(printed_from(bound, args, 0) == (Outcome {
        result: Ok(SpecValue::Null),
        output: text + "\n"@,
    }));
    assert(evaluated(bound, show->Expr_0) == printed_from(bound, args, 0));
    assert(executed(bound, show) == (Run { bindings: bound, result: Ok(()), output: text + "\n"@ }));
    assert(ran_from(bound, program, 2) == (Run {
        bindings: bound,
        result: Ok(()),
        output: Seq::empty(),
    }));
    assert(ran_from(bound, program, 1).output =~= text + "\n"@);
    assert(ran_from(env, program, 0).output =~= text + "\n"@);
}

} // verus!
