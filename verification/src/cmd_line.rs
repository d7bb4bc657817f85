//! Building the UTF-16 argument string of a `cmd.exe /d /c start "Name"
//! "path/to/executable" args` command.
//!
//! `cmd.exe` has its own escaping rules, so each of the name, the path and
//! the arguments is quoted as follows: it is enclosed in double quotes, `%`
//! is replaced by `%%cd:~,%`, a double quote is doubled and the backslashes
//! right in front of it are doubled too, and newlines are removed.

use vstd::prelude::*;
use crate::seq_util::{push_all, push_repeated};

verus! {

/// UTF-16 code unit of `"`.
pub const QUOTE: u16 = 0x22;

/// UTF-16 code unit of `%`.
pub const PERCENT: u16 = 0x25;

/// UTF-16 code unit of `\`.
pub const BACKSLASH: u16 = 0x5C;

/// UTF-16 code unit of a line feed.
pub const NEWLINE: u16 = 0x0A;

/// UTF-16 code unit of a space.
pub const SPACE: u16 = 0x20;

/// What a `%` becomes inside a quoted argument: `%%cd:~,%`.
pub open spec fn percent_escaped() -> Seq<u16> {
    seq![0x25u16, 0x25, 0x63, 0x64, 0x3a, 0x7e, 0x2c, 0x25]
}

/// The switches put in front of the command: `/E:ON /V:OFF /d /c start /b `.
pub open spec fn start_prefix() -> Seq<u16> {
    seq![
        0x2Fu16, 0x45, 0x3A, 0x4F, 0x4E, 0x20,
        0x2F, 0x56, 0x3A, 0x4F, 0x46, 0x46, 0x20,
        0x2F, 0x64, 0x20,
        0x2F, 0x63, 0x20,
        0x73, 0x74, 0x61, 0x72, 0x74, 0x20,
        0x2F, 0x62, 0x20,
    ]
}

/// `n` backslashes.
pub open spec fn backslashes(n: nat) -> Seq<u16> {
    Seq::new(n, |_i: int| BACKSLASH)
}

/// The number of backslashes that `s` ends with.
pub open spec fn trailing_backslashes(s: Seq<u16>) -> nat
    decreases s.len(),
{
    if s.len() == 0 {
        0
    } else if s.last() == BACKSLASH {
        trailing_backslashes(s.drop_last()) + 1
    } else {
        0
    }
}

/// What the unit `x` becomes when `run` backslashes come right before it.
pub open spec fn escape_unit(x: u16, run: nat) -> Seq<u16> {
    if x == PERCENT {
        percent_escaped()
    } else if x == QUOTE {
        backslashes(run) + seq![QUOTE, QUOTE]
    } else if x == NEWLINE {
        Seq::empty()
    } else {
        seq![x]
    }
}

/// The escaped text of `s`, without the enclosing quotes.
pub open spec fn escaped_body(s: Seq<u16>) -> Seq<u16>
    decreases s.len(),
{
    if s.len() == 0 {
        Seq::empty()
    } else {
        escaped_body(s.drop_last()) + escape_unit(s.last(), trailing_backslashes(s.drop_last()))
    }
}

/// `s` as one quoted `cmd.exe` argument.
pub open spec fn cmd_quoted(s: Seq<u16>) -> Seq<u16> {
    seq![QUOTE] + escaped_body(s) + seq![QUOTE]
}

/// Each of `args`, quoted, with a space in front of it.
pub open spec fn quoted_args(args: Seq<Seq<u16>>) -> Seq<u16>
    decreases args.len(),
{
    if args.len() == 0 {
        Seq::empty()
    } else {
        quoted_args(args.drop_last()) + seq![SPACE] + cmd_quoted(args.last())
    }
}

/// The whole argument string handed to `cmd.exe` to start `path` with the
/// window title `name` and the arguments `args`.
pub open spec fn start_command_line(name: Seq<u16>, path: Seq<u16>, args: Seq<Seq<u16>>) -> Seq<u16> {
    start_prefix() + cmd_quoted(name) + seq![SPACE] + cmd_quoted(path) + quoted_args(args)
}

/// Appends `arg`, quoted for `cmd.exe`, to `args`.
pub fn append_cmd_escaped(args: &mut Vec<u16>, arg: &[u16])
    ensures
        final(args)@ == old(args)@ + cmd_quoted(arg@),
{
    let ghost start = args@;
    let percent: [u16; 8] = [0x25, 0x25, 0x63, 0x64, 0x3a, 0x7e, 0x2c, 0x25];
    assert(percent@ =~= percent_escaped());
    args.push(QUOTE);
    let n = arg.len();
    let mut backslash: usize = 0;
    let mut i: usize = 0;
    while i < n
        invariant
            n == arg@.len(),
            i <= n,
            backslash as nat == trailing_backslashes(arg@.take(i as int)),
            backslash <= i,
            percent@ == percent_escaped(),
            args@ == start + seq![QUOTE] + escaped_body(arg@.take(i as int)),
        decreases n - i,
    {
        let x = arg[i];
        let ghost before = args@;
        let ghost prefix = arg@.take(i as int);
        let ghost next = arg@.take(i as int + 1);
        assert(next.drop_last() =~= prefix);
        assert(next.last() == x);
        if x == PERCENT {
            push_all(args, &percent);
        } else if x == QUOTE {
            push_repeated(args, BACKSLASH, backslash);
            args.push(QUOTE);
            args.push(QUOTE);
            assert(args@ =~= before + (backslashes(backslash as nat) + seq![QUOTE, QUOTE]));
        } else if x == NEWLINE {
        } else {
            args.push(x);
        }
        assert(args@ =~= before + escape_unit(x, trailing_backslashes(prefix)));
        assert(escaped_body(next) == escaped_body(prefix) + escape_unit(x, trailing_backslashes(prefix)));
        if x == BACKSLASH {
            backslash = backslash + 1;
        } else {
            backslash = 0;
        }
        i = i + 1;
    }
    assert(arg@.take(n as int) =~= arg@);
    args.push(QUOTE);
}

/// The argument string of `cmd.exe /E:ON /V:OFF /d /c start /b "name"
/// "path" "arg"...`, each of the name, the path and the arguments quoted by
/// [`append_cmd_escaped`].
pub fn start_command_args(name: &[u16], path: &[u16], args: &[Vec<u16>]) -> (r: Vec<u16>)
    ensures
        r@ == start_command_line(name@, path@, args@.map_values(|a: Vec<u16>| a@)),
{
    let mut cmd_args: Vec<u16> = vec![
        0x2F, 0x45, 0x3A, 0x4F, 0x4E, 0x20,
        0x2F, 0x56, 0x3A, 0x4F, 0x46, 0x46, 0x20,
        0x2F, 0x64, 0x20,
        0x2F, 0x63, 0x20,
        0x73, 0x74, 0x61, 0x72, 0x74, 0x20,
        0x2F, 0x62, 0x20,
    ];
    assert(cmd_args@ =~= start_prefix());
    append_cmd_escaped(&mut cmd_args, name);
    cmd_args.push(SPACE);
    append_cmd_escaped(&mut cmd_args, path);
    let ghost head = cmd_args@;
    let ghost views = args@.map_values(|a: Vec<u16>| a@);
    assert(head == start_prefix() + cmd_quoted(name@) + seq![SPACE] + cmd_quoted(path@));
    let n = args.len();
    let mut i: usize = 0;
    while i < n
        invariant
            n == args@.len(),
            i <= n,
            views == args@.map_values(|a: Vec<u16>| a@),
            cmd_args@ == head + quoted_args(views.take(i as int)),
        decreases n - i,
    {
        let ghost before = cmd_args@;
        cmd_args.push(SPACE);
        append_cmd_escaped(&mut cmd_args, args[i].as_slice());
        assert(views.take(i as int + 1).drop_last() =~= views.take(i as int));
        assert(views.take(i as int + 1).last() == args@[i as int]@);
        assert(cmd_args@ =~= before + seq![SPACE] + cmd_quoted(args@[i as int]@));
        i = i + 1;
    }
    assert(views.take(n as int) =~= views);
    cmd_args
}

/// The number of backslashes at the end of `a + b` is that of `b`, when `a`
/// itself does not end with a backslash.
pub proof fn lemma_trailing_backslashes_concat(a: Seq<u16>, b: Seq<u16>)
    requires
        trailing_backslashes(a) == 0,
    ensures
        trailing_backslashes(a + b) == trailing_backslashes(b),
    decreases b.len(),
{
    if b.len() == 0 {
        assert(a + b =~= a);
    } else {
        assert((a + b).drop_last() =~= a + b.drop_last());
        lemma_trailing_backslashes_concat(a, b.drop_last());
    }
}

/// Escaping works piece by piece: the body of `a + b` is the body of `a`
/// followed by the body of `b`, whenever `a` does not end with a backslash.
pub proof fn lemma_escaped_body_concat(a: Seq<u16>, b: Seq<u16>)
    requires
        trailing_backslashes(a) == 0,
    ensures
        escaped_body(a + b) == escaped_body(a) + escaped_body(b),
    decreases b.len(),
{
    if b.len() == 0 {
        assert(a + b =~= a);
        assert(escaped_body(a) + escaped_body(b) =~= escaped_body(a));
    } else {
        assert((a + b).drop_last() =~= a + b.drop_last());
        assert((a + b).last() == b.last());
        lemma_escaped_body_concat(a, b.drop_last());
        lemma_trailing_backslashes_concat(a, b.drop_last());
        assert(escaped_body(a + b) =~= escaped_body(a) + escaped_body(b));
    }
}

/// A quoted argument never holds a newline, whatever the input.
pub proof fn lemma_cmd_quoted_has_no_newline(s: Seq<u16>)
    ensures
        !cmd_quoted(s).contains(NEWLINE),
{
    lemma_escaped_body_has_no_newline(s);
    assert forall|i: int| 0 <= i < cmd_quoted(s).len() implies cmd_quoted(s)[i] != NEWLINE by {
        if 1 <= i < cmd_quoted(s).len() - 1 {
            assert(cmd_quoted(s)[i] == escaped_body(s)[i - 1]);
        }
    }
}

/// The escaped body of any input holds no newline.
pub proof fn lemma_escaped_body_has_no_newline(s: Seq<u16>)
    ensures
        !escaped_body(s).contains(NEWLINE),
    decreases s.len(),
{
    if s.len() > 0 {
        lemma_escaped_body_has_no_newline(s.drop_last());
        let head = escaped_body(s.drop_last());
        let tail = escape_unit(s.last(), trailing_backslashes(s.drop_last()));
        assert forall|i: int| 0 <= i < tail.len() implies tail[i] != NEWLINE by {
            if s.last() == QUOTE {
                let run = backslashes(trailing_backslashes(s.drop_last()));
                if i < run.len() {
                    assert(tail[i] == run[i]);
                }
            }
        }
        assert forall|i: int| 0 <= i < escaped_body(s).len() implies escaped_body(s)[i] != NEWLINE by {
            if i < head.len() {
                assert(escaped_body(s)[i] == head[i]);
            } else {
                assert(escaped_body(s)[i] == tail[i - head.len()]);
            }
        }
    }
}

/// Whether `s` holds none of the units that quoting rewrites: `%`, `"` and
/// the newline.
pub open spec fn is_plain(s: Seq<u16>) -> bool {
    forall|i: int| 0 <= i < s.len() ==> s[i] != PERCENT && s[i] != QUOTE && s[i] != NEWLINE
}

/// Text without `%`, `"` or newlines passes through quoting unchanged; only
/// the enclosing quotes are added.
pub proof fn lemma_plain_text_is_unchanged(s: Seq<u16>)
    requires
        is_plain(s),
    ensures
        escaped_body(s) == s,
        cmd_quoted(s) == seq![QUOTE] + s + seq![QUOTE],
    decreases s.len(),
{
    if s.len() > 0 {
        assert(is_plain(s.drop_last()));
        lemma_plain_text_is_unchanged(s.drop_last());
        assert(s.last() == s[s.len() - 1]);
        assert(escaped_body(s) =~= s);
    }
}

/// The number of double quotes in `s`.
pub open spec fn quote_count(s: Seq<u16>) -> nat
    decreases s.len(),
{
    if s.len() == 0 {
        0
    } else {
        quote_count(s.drop_last()) + if s.last() == QUOTE {
            1nat
        } else {
            0nat
        }
    }
}

proof fn lemma_quote_count_concat(a: Seq<u16>, b: Seq<u16>)
    ensures
        quote_count(a + b) == quote_count(a) + quote_count(b),
    decreases b.len(),
{
    if b.len() == 0 {
        assert(a + b =~= a);
    } else {
        assert((a + b).drop_last() =~= a + b.drop_last());
        lemma_quote_count_concat(a, b.drop_last());
    }
}

proof fn lemma_quote_count_single(x: u16)
    ensures
        quote_count(seq![x]) == if x == QUOTE {
            1nat
        } else {
            0nat
        },
{
    let s = seq![x];
    assert(s.drop_last() =~= Seq::<u16>::empty());
    assert(s.last() == x);
    assert(quote_count(Seq::<u16>::empty()) == 0);
}

proof fn lemma_quote_count_no_quotes(s: Seq<u16>)
    requires
        forall|i: int| 0 <= i < s.len() ==> s[i] != QUOTE,
    ensures
        quote_count(s) == 0,
    decreases s.len(),
{
    if s.len() > 0 {
        lemma_quote_count_no_quotes(s.drop_last());
    }
}

/// Quoting keeps the double quotes balanced: each quote of the input becomes
/// two, and the enclosing quotes add two more, so `cmd.exe` never sees an
/// odd number of quotes in a quoted argument.
pub proof fn lemma_quotes_come_in_pairs(s: Seq<u16>)
    ensures
        quote_count(escaped_body(s)) == 2 * quote_count(s),
        quote_count(cmd_quoted(s)) == 2 * quote_count(s) + 2,
    decreases s.len(),
{
    if s.len() > 0 {
        let prefix = s.drop_last();
        lemma_quotes_come_in_pairs(prefix);
        let x = s.last();
        let run = trailing_backslashes(prefix);
        let tail = escape_unit(x, run);
        lemma_quote_count_concat(escaped_body(prefix), tail);
        lemma_quote_count_single(QUOTE);
        if x == QUOTE {
            lemma_quote_count_no_quotes(backslashes(run));
            lemma_quote_count_concat(backslashes(run), seq![QUOTE, QUOTE]);
            assert(quote_count(seq![QUOTE, QUOTE]) == 2) by {
                assert(seq![QUOTE, QUOTE].drop_last() =~= seq![QUOTE]);
            }
            assert(quote_count(tail) == 2);
        } else if x == PERCENT {
            lemma_quote_count_no_quotes(percent_escaped());
            assert(quote_count(tail) == 0);
        } else if x == NEWLINE {
            assert(quote_count(tail) == 0);
        } else {
            lemma_quote_count_single(x);
        }
        assert(quote_count(s) == quote_count(prefix) + if x == QUOTE { 1nat } else { 0nat });
    }
    lemma_quote_count_single(QUOTE);
    lemma_quote_count_concat(seq![QUOTE], escaped_body(s));
    lemma_quote_count_concat(seq![QUOTE] + escaped_body(s), seq![QUOTE]);
}

/// Whether `cmd.exe` reads `body`, inside enclosing double quotes, as one
/// quoted token with nothing to expand: read from the left, each `"` is
/// immediately followed by another (so the quote state is the same after
/// each pair and the token never leaves its quotes), each `%` starts a
/// `%%cd:~,%` (whose `%cd:~,%` expands to nothing), and there is no newline.
pub open spec fn reads_as_one_token(body: Seq<u16>) -> bool
    decreases body.len(),
{
    if body.len() == 0 {
        true
    } else if body[0] == QUOTE {
        body.len() >= 2 && body[1] == QUOTE && reads_as_one_token(body.subrange(2, body.len() as int))
    } else if body[0] == PERCENT {
        body.len() >= 8 && body.subrange(0, 8) == percent_escaped() && reads_as_one_token(
            body.subrange(8, body.len() as int),
        )
    } else if body[0] == NEWLINE {
        false
    } else {
        reads_as_one_token(body.drop_first())
    }
}

proof fn lemma_one_token_concat(a: Seq<u16>, b: Seq<u16>)
    requires
        reads_as_one_token(a),
        reads_as_one_token(b),
    ensures
        reads_as_one_token(a + b),
    decreases a.len(),
{
    if a.len() == 0 {
        assert(a + b =~= b);
    } else {
        let ab = a + b;
        assert(ab[0] == a[0]);
        if a[0] == QUOTE {
            assert(ab[1] == a[1]);
            lemma_one_token_concat(a.subrange(2, a.len() as int), b);
            assert(ab.subrange(2, ab.len() as int) =~= a.subrange(2, a.len() as int) + b);
        } else if a[0] == PERCENT {
            assert(ab.subrange(0, 8) =~= a.subrange(0, 8));
            lemma_one_token_concat(a.subrange(8, a.len() as int), b);
            assert(ab.subrange(8, ab.len() as int) =~= a.subrange(8, a.len() as int) + b);
        } else {
            lemma_one_token_concat(a.drop_first(), b);
            assert(ab.drop_first() =~= a.drop_first() + b);
        }
    }
}

proof fn lemma_one_token_without_specials(s: Seq<u16>)
    requires
        forall|i: int| 0 <= i < s.len() ==> s[i] != QUOTE && s[i] != PERCENT && s[i] != NEWLINE,
    ensures
        reads_as_one_token(s),
    decreases s.len(),
{
    if s.len() > 0 {
        lemma_one_token_without_specials(s.drop_first());
    }
}

proof fn lemma_escape_unit_one_token(x: u16, run: nat)
    ensures
        reads_as_one_token(escape_unit(x, run)),
{
    reveal_with_fuel(reads_as_one_token, 2);
    assert(reads_as_one_token(Seq::<u16>::empty()));
    if x == PERCENT {
        let p = percent_escaped();
        assert(p.subrange(0, 8) =~= p);
        assert(p.subrange(8, 8) =~= Seq::<u16>::empty());
    } else if x == QUOTE {
        let q = seq![QUOTE, QUOTE];
        assert(q.subrange(2, 2) =~= Seq::<u16>::empty());
        assert(reads_as_one_token(q));
        lemma_one_token_without_specials(backslashes(run));
        lemma_one_token_concat(backslashes(run), q);
    } else if x == NEWLINE {
    } else {
        assert(seq![x].drop_first() =~= Seq::<u16>::empty());
    }
}

/// Quoting keeps each argument one `cmd.exe` token and leaves nothing to
/// expand: inside the enclosing quotes, quotes come only as `""` pairs,
/// `%` only at the start of `%%cd:~,%`, and there is no newline.
pub proof fn lemma_quoted_argument_is_one_token(s: Seq<u16>)
    ensures
        reads_as_one_token(escaped_body(s)),
    decreases s.len(),
{
    if s.len() > 0 {
        lemma_quoted_argument_is_one_token(s.drop_last());
        lemma_escape_unit_one_token(s.last(), trailing_backslashes(s.drop_last()));
        lemma_one_token_concat(
            escaped_body(s.drop_last()),
            escape_unit(s.last(), trailing_backslashes(s.drop_last())),
        );
    }
}

/// For each argument, one space and the length of its quoted token.
pub open spec fn quoted_args_len(args: Seq<Seq<u16>>) -> int
    decreases args.len(),
{
    if args.len() == 0 {
        0
    } else {
        quoted_args_len(args.drop_last()) + 1 + cmd_quoted(args.last()).len()
    }
}

/// A quoted argument is a token between two quotes: at least the two
/// quotes, even for an empty argument, which is written `""`.
pub proof fn lemma_quoted_token_is_delimited(s: Seq<u16>)
    ensures
        cmd_quoted(s).len() >= 2,
        cmd_quoted(s)[0] == QUOTE,
        cmd_quoted(s).last() == QUOTE,
        s.len() == 0 ==> cmd_quoted(s) == seq![QUOTE, QUOTE],
{
    if s.len() == 0 {
        assert(escaped_body(s) =~= Seq::<u16>::empty()) by {
            reveal_with_fuel(escaped_body, 1);
        }
        assert(cmd_quoted(s) =~= seq![QUOTE, QUOTE]);
    }
}

/// Adding an argument, empty or not, adds exactly a space and its quoted
/// token at the end of the command line, and leaves the rest as it was.
pub proof fn lemma_each_argument_adds_one_token(
    name: Seq<u16>,
    path: Seq<u16>,
    args: Seq<Seq<u16>>,
    arg: Seq<u16>,
)
    ensures
        start_command_line(name, path, args.push(arg)) == start_command_line(name, path, args) + seq![SPACE]
            + cmd_quoted(arg),
{
    assert(args.push(arg).drop_last() =~= args);
    assert(start_command_line(name, path, args.push(arg)) =~= start_command_line(name, path, args)
        + seq![SPACE] + cmd_quoted(arg));
}

/// The part of the command line after the quoted path holds one space and
/// one quoted token for every argument, empty ones included.
pub proof fn lemma_arguments_part_length(name: Seq<u16>, path: Seq<u16>, args: Seq<Seq<u16>>)
    ensures
        start_command_line(name, path, args).len() == start_command_line(name, path, Seq::empty()).len()
            + quoted_args_len(args),
        quoted_args_len(args) >= 3 * args.len(),
    decreases args.len(),
{
    if args.len() > 0 {
        lemma_arguments_part_length(name, path, args.drop_last());
        lemma_each_argument_adds_one_token(name, path, args.drop_last(), args.last());
        assert(args.drop_last().push(args.last()) =~= args);
        lemma_quoted_token_is_delimited(args.last());
    }
}

} // verus!
