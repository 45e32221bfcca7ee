//! Turning command-line arguments into the prompts to check.
//!
//! Each argument is a file (its text is one prompt), a directory (each of
//! its `.prompt` files, at any depth and in path order, is one prompt), or,
//! when no such path exists, the prompt text itself, named `literal:N` by
//! its rank among the literal arguments. What the file system holds is
//! read by the caller and handed over as `ArgInput` values.
use vstd::prelude::*;

use crate::text::{chars_of, decimal, push_decimal, string_from_chars};

verus! {

/// One check unit: display name (path or `literal:N`) and prompt text.
#[derive(Debug)]
pub struct CheckItem {
    pub name: String,
    pub text: String,
}

/// What one command-line argument turned out to be.
#[derive(Debug)]
pub enum ArgInput {
    /// No path of this name exists: the argument is prompt text.
    Literal(String),
    /// A file, with its text.
    File { path: String, text: String },
    /// A directory, with its `.prompt` files (named by path, in path order)
    /// and their texts.
    Directory { path: String, files: Vec<CheckItem> },
    /// A path that exists but is neither a file nor a directory.
    Other { path: String },
    /// Reading the file system failed here; `message` says what failed.
    Unreadable { message: String },
}

/// Why no list of prompts came out of the arguments.
#[derive(Debug, PartialEq, Eq)]
pub enum InputError {
    /// A directory without `.prompt` files.
    NoPromptFiles { path: String },
    /// A path that is neither a file nor a directory.
    NotFileOrDirectory { path: String },
    /// No argument at all.
    NoInputs,
    /// Reading the file system failed.
    Read { message: String },
}

pub open spec fn item_view(item: CheckItem) -> (Seq<char>, Seq<char>) {
    (item.name@, item.text@)
}

pub open spec fn items_view(items: Seq<CheckItem>) -> Seq<(Seq<char>, Seq<char>)> {
    items.map_values(|item: CheckItem| item_view(item))
}

/// The name of the `n`-th literal argument (counting from 1).
pub open spec fn literal_name(n: nat) -> Seq<char> {
    "literal:"@ + decimal(n)
}

/// The prompts that the argument `arg` contributes, when it is the
/// `literals + 1`-th literal if it is one at all.
pub open spec fn arg_items(arg: ArgInput, literals: nat) -> Result<Seq<(Seq<char>, Seq<char>)>, InputError> {
    match arg {
        ArgInput::Literal(text) => Ok(seq![(literal_name(literals + 1), text@)]),
        ArgInput::File { path, text } => Ok(seq![(path@, text@)]),
        ArgInput::Directory { path, files } => if files@.len() == 0 {
            Err(InputError::NoPromptFiles { path })
        } else {
            Ok(items_view(files@))
        },
        ArgInput::Other { path } => Err(InputError::NotFileOrDirectory { path }),
        ArgInput::Unreadable { message } => Err(InputError::Read { message }),
    }
}

pub open spec fn literal_count(arg: ArgInput, literals: nat) -> nat {
    match arg {
        ArgInput::Literal(_) => literals + 1,
        _ => literals,
    }
}

/// `prefix` put before the prompts of `rest`, or the error of `rest`.
pub open spec fn prepend(
    prefix: Seq<(Seq<char>, Seq<char>)>,
    rest: Result<Seq<(Seq<char>, Seq<char>)>, InputError>,
) -> Result<Seq<(Seq<char>, Seq<char>)>, InputError> {
    match rest {
        Ok(items) => Ok(prefix + items),
        Err(e) => Err(e),
    }
}

proof fn lemma_prepend_assoc(
    p: Seq<(Seq<char>, Seq<char>)>,
    h: Seq<(Seq<char>, Seq<char>)>,
    r: Result<Seq<(Seq<char>, Seq<char>)>, InputError>,
)
    ensures
        prepend(p, prepend(h, r)) == prepend(p + h, r),
{
    if let Ok(x) = r {
        assert(p + (h + x) =~= (p + h) + x);
    }
}

/// The prompts of `args` in order, `literals` literal arguments having
/// come before; the first argument that fails gives the error.
pub open spec fn collect_from(args: Seq<ArgInput>, literals: nat) -> Result<Seq<(Seq<char>, Seq<char>)>, InputError>
    decreases args.len(),
{
    if args.len() == 0 {
        Ok(seq![])
    } else {
        match arg_items(args[0], literals) {
            Ok(head) => prepend(head, collect_from(args.drop_first(), literal_count(args[0], literals))),
            Err(e) => Err(e),
        }
    }
}

/// The prompts of `args`, or the error: that of the first failing
/// argument, else `NoInputs` when there is no prompt at all.
pub open spec fn collected(args: Seq<ArgInput>) -> Result<Seq<(Seq<char>, Seq<char>)>, InputError> {
    match collect_from(args, 0) {
        Ok(items) => if items.len() == 0 {
            Err(InputError::NoInputs)
        } else {
            Ok(items)
        },
        Err(e) => Err(e),
    }
}

/// The name `literal:N`.
pub fn literal_item_name(n: usize) -> (s: String)
    ensures
        s@ == literal_name(n as nat),
{
    let mut v = chars_of("literal:");
    push_decimal(n, &mut v);
    string_from_chars(&v)
}

fn copy_item(item: &CheckItem) -> (r: CheckItem)
    ensures
        item_view(r) == item_view(*item),
{
    CheckItem { name: item.name.clone(), text: item.text.clone() }
}

/// Expands the arguments into check items, in order: a file gives one
/// item named by its path, a directory one item per `.prompt` file, any
/// other argument one item named `literal:N`. Fails on the first directory
/// without prompt files, the first path that is neither file nor directory,
/// or the first read failure; fails with `NoInputs` when nothing is left.
pub fn collect_check_items(args: &Vec<ArgInput>) -> (r: Result<Vec<CheckItem>, InputError>)
    ensures
        r is Ok <==> collected(args@) is Ok,
        r matches Ok(items) ==> collected(args@) == Ok::<Seq<(Seq<char>, Seq<char>)>, InputError>(
            items_view(items@),
        ),
        r matches Err(e) ==> collected(args@) == Err::<Seq<(Seq<char>, Seq<char>)>, InputError>(e),
{
    let mut items: Vec<CheckItem> = Vec::new();
    let mut literals: usize = 0;
    let mut i: usize = 0;
    assert(args@.skip(0) =~= args@);
    assert(items_view(items@) =~= Seq::<(Seq<char>, Seq<char>)>::empty());
    while i < args.len()
        invariant
            i <= args.len(),
            literals <= i,
            collect_from(args@, 0) == prepend(items_view(items@), collect_from(args@.skip(i as int), literals as nat)),
        decreases args.len() - i,
    {
        let ghost rest = args@.skip(i as int);
        assert(rest[0] == args@[i as int]);
        assert(rest.drop_first() =~= args@.skip(i + 1));
        let ghost before = items_view(items@);
        let ghost old_literals = literals as nat;
        match &args[i] {
            ArgInput::Literal(text) => {
                literals = literals + 1;
                let item = CheckItem { name: literal_item_name(literals), text: text.clone() };
                items.push(item);
                assert(items_view(items@) =~= before + seq![item_view(item)]);
            },
            ArgInput::File { path, text } => {
                let item = CheckItem { name: path.clone(), text: text.clone() };
                items.push(item);
                assert(items_view(items@) =~= before + seq![item_view(item)]);
            },
            ArgInput::Directory { path, files } => {
                if files.len() == 0 {
                    return Err(InputError::NoPromptFiles { path: path.clone() });
                }
                let mut k: usize = 0;
                while k < files.len()
                    invariant
                        k <= files.len(),
                        items_view(items@) == before + items_view(files@.take(k as int)),
                    decreases files.len() - k,
                {
                    let item = copy_item(&files[k]);
                    let ghost mid = items_view(items@);
                    items.push(item);
                    assert(items_view(items@) =~= mid.push(item_view(item)));
                    assert(items_view(files@.take(k + 1)) =~= items_view(files@.take(k as int)).push(
                        item_view(files@[k as int]),
                    ));
                    k = k + 1;
                }
                assert(files@.take(files.len() as int) =~= files@);
            },
            ArgInput::Other { path } => {
                return Err(InputError::NotFileOrDirectory { path: path.clone() });
            },
            ArgInput::Unreadable { message } => {
                return Err(InputError::Read { message: message.clone() });
            },
        }
        proof {
            let head = arg_items(args@[i as int], old_literals)->Ok_0;
            assert(arg_items(args@[i as int], old_literals) is Ok);
            assert(items_view(items@) == before + head);
            assert(literals as nat == literal_count(args@[i as int], old_literals));
            lemma_prepend_assoc(before, head, collect_from(args@.skip(i + 1), literals as nat));
        }
        i = i + 1;
    }
    assert(args@.skip(args.len() as int) =~= Seq::<ArgInput>::empty());
    assert(items_view(items@) + Seq::<(Seq<char>, Seq<char>)>::empty() =~= items_view(items@));
    if items.len() == 0 {
        return Err(InputError::NoInputs);
    }
    Ok(items)
}

/// The item expected of the `i`-th of a run of literal arguments that
/// follows `n` literals.
pub open spec fn literal_text(arg: ArgInput) -> Seq<char> {
    match arg {
        ArgInput::Literal(text) => text@,
        _ => Seq::empty(),
    }
}

pub open spec fn numbered_literals(args: Seq<ArgInput>, n: nat) -> Seq<(Seq<char>, Seq<char>)> {
    Seq::new(args.len(), |i: int| (literal_name((n + i + 1) as nat), literal_text(args[i])))
}

proof fn lemma_literals_from(args: Seq<ArgInput>, n: nat)
    requires
        forall|i: int| 0 <= i < args.len() ==> #[trigger] args[i] is Literal,
    ensures
        collect_from(args, n) == Ok::<Seq<(Seq<char>, Seq<char>)>, InputError>(numbered_literals(args, n)),
    decreases args.len(),
{
    if args.len() > 0 {
        let rest = args.drop_first();
        assert forall|i: int| 0 <= i < rest.len() implies #[trigger] rest[i] is Literal by {
            assert(rest[i] == args[i + 1]);
            assert(args[i + 1] is Literal);
        }
        assert(args[0] is Literal);
        lemma_literals_from(rest, n + 1);
        assert(numbered_literals(args, n) =~= seq![(literal_name(n + 1), literal_text(args[0]))]
            + numbered_literals(rest, n + 1));
    } else {
        assert(numbered_literals(args, n) =~= Seq::<(Seq<char>, Seq<char>)>::empty());
    }
}

/// Prompt texts given on the command line become items in order, named
/// `literal:1`, `literal:2`, ... by their rank.
pub proof fn law_literals_numbered_in_order(args: Seq<ArgInput>)
    requires
        args.len() > 0,
        forall|i: int| 0 <= i < args.len() ==> #[trigger] args[i] is Literal,
    ensures
        collected(args) == Ok::<Seq<(Seq<char>, Seq<char>)>, InputError>(numbered_literals(args, 0)),
{
    lemma_literals_from(args, 0);
}

/// How many of `args` are literal prompt texts.
pub open spec fn literal_args(args: Seq<ArgInput>) -> nat
    decreases args.len(),
{
    if args.len() == 0 {
        0
    } else {
        (if args[0] is Literal { 1nat } else { 0nat }) + literal_args(args.drop_first())
    }
}

/// The prompts of two runs of arguments, one after the other, are the
/// prompts of the first run followed by those of the second, whose literals
/// are numbered on from those of the first; a failure in the first run is
/// the failure of both. Every kind of argument, a directory included, lets
/// the arguments after it contribute their prompts.
pub proof fn law_items_concatenate(a: Seq<ArgInput>, b: Seq<ArgInput>, n: nat)
    ensures
        collect_from(a + b, n) == (match collect_from(a, n) {
            Ok(x) => prepend(x, collect_from(b, n + literal_args(a))),
            Err(e) => Err(e),
        }),
    decreases a.len(),
{
    if a.len() == 0 {
        assert(a + b =~= b);
        if let Ok(y) = collect_from(b, n) {
            assert(Seq::<(Seq<char>, Seq<char>)>::empty() + y =~= y);
        }
    } else {
        let rest = a.drop_first();
        assert((a + b)[0] == a[0]);
        assert((a + b).drop_first() =~= rest + b);
        let lc = literal_count(a[0], n);
        law_items_concatenate(rest, b, lc);
        assert(lc + literal_args(rest) == n + literal_args(a));
        if let Ok(h) = arg_items(a[0], n) {
            if let Ok(x) = collect_from(rest, lc) {
                lemma_prepend_assoc(h, x, collect_from(b, lc + literal_args(rest)));
            }
        }
    }
}

/// What one argument alone gives: a literal is the prompt `literal:1`; a
/// file, one prompt named by its path; a directory, its prompt files in
/// order, or `NoPromptFiles` when it has none; any other path, or a read
/// failure, its error. No argument at all is `NoInputs`.
pub proof fn law_single_argument(arg: ArgInput)
    ensures
        collected(seq![]) == Err::<Seq<(Seq<char>, Seq<char>)>, InputError>(InputError::NoInputs),
        arg matches ArgInput::Literal(text) ==> collected(seq![arg]) == Ok::<Seq<(Seq<char>, Seq<char>)>, InputError>(
            seq![("literal:1"@, text@)],
        ),
        arg matches ArgInput::File { path, text } ==> collected(seq![arg]) == Ok::<
            Seq<(Seq<char>, Seq<char>)>,
            InputError,
        >(seq![(path@, text@)]),
        arg matches ArgInput::Directory { path, files } ==> collected(seq![arg]) == (if files@.len() == 0 {
            Err::<Seq<(Seq<char>, Seq<char>)>, InputError>(InputError::NoPromptFiles { path })
        } else {
            Ok(items_view(files@))
        }),
        arg matches ArgInput::Other { path } ==> collected(seq![arg]) == Err::<Seq<(Seq<char>, Seq<char>)>, InputError>(
            InputError::NotFileOrDirectory { path },
        ),
        arg matches ArgInput::Unreadable { message } ==> collected(seq![arg]) == Err::<
            Seq<(Seq<char>, Seq<char>)>,
            InputError,
        >(InputError::Read { message }),
{
    reveal_strlit("literal:");
    reveal_strlit("literal:1");
    reveal_with_fuel(collect_from, 2);
    let args = seq![arg];
    assert(args.drop_first() =~= Seq::<ArgInput>::empty());
    assert(decimal(1) == seq!['1']) by {
        reveal_with_fuel(decimal, 2);
    }
    assert(literal_name(1) =~= "literal:1"@);
    if let Ok(h) = arg_items(arg, 0) {
        assert(h + Seq::<(Seq<char>, Seq<char>)>::empty() =~= h);
    }
    if let ArgInput::Directory { path, files } = arg {
        if files@.len() > 0 {
            assert(items_view(files@).len() > 0);
        }
    }
}

/// The text of an input error.
pub open spec fn error_message(e: InputError) -> Seq<char> {
    match e {
        InputError::NoPromptFiles { path } => "no .prompt files under "@ + path@,
        InputError::NotFileOrDirectory { path } => "not a file or directory: "@ + path@,
        InputError::NoInputs => "no inputs: pass file paths, directories, or prompt text"@,
        InputError::Read { message } => message@,
    }
}

impl InputError {
    /// What went wrong, as a sentence.
    pub fn message(&self) -> (s: String)
        ensures
            s@ == error_message(*self),
    {
        match self {
            InputError::NoPromptFiles { path } => {
                let mut v = chars_of("no .prompt files under ");
                let mut p = chars_of(path.as_str());
                v.append(&mut p);
                string_from_chars(&v)
            },
            InputError::NotFileOrDirectory { path } => {
                let mut v = chars_of("not a file or directory: ");
                let mut p = chars_of(path.as_str());
                v.append(&mut p);
                string_from_chars(&v)
            },
            InputError::NoInputs => "no inputs: pass file paths, directories, or prompt text".to_owned(),
            InputError::Read { message } => message.clone(),
        }
    }
}

} // verus!
