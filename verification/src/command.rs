use vstd::prelude::*;
use crate::text::is_unicode_whitespace;
use crate::text::char_is_whitespace;

verus! {

/// One step of the whitespace scan: the tokens closed so far and the token
/// being gathered.
pub open spec fn scan_ws(s: Seq<char>) -> (Seq<Seq<char>>, Seq<char>)
    decreases s.len(),
{
    if s.len() == 0 {
        (Seq::empty(), Seq::empty())
    } else {
        let (toks, cur) = scan_ws(s.drop_last());
        let c = s.last();
        if is_unicode_whitespace(c) {
            if cur.len() > 0 {
                (toks.push(cur), Seq::<char>::empty())
            } else {
                (toks, cur)
            }
        } else {
            (toks, cur.push(c))
        }
    }
}

/// The whitespace-separated tokens of a line.
pub open spec fn split_ws(s: Seq<char>) -> Seq<Seq<char>> {
    let (toks, cur) = scan_ws(s);
    if cur.len() > 0 {
        toks.push(cur)
    } else {
        toks
    }
}

/// Tokens joined back together with single spaces.
pub open spec fn join_spaces(ts: Seq<Seq<char>>) -> Seq<char>
    decreases ts.len(),
{
    if ts.len() == 0 {
        Seq::empty()
    } else if ts.len() == 1 {
        ts[0]
    } else {
        join_spaces(ts.drop_last()) + seq![' '] + ts.last()
    }
}

/// Ghost model of a parsed command line.
#[verifier::ext_equal]
pub enum CommandV {
    Save,
    SaveQuit,
    Quit,
    ForceQuit,
    ShowHelp,
    NewGroup(Seq<char>),
    Unknown,
}

/// A parsed command line: the fixed grammar of the `:` mode.
pub enum Command {
    Save,
    SaveQuit,
    Quit,
    ForceQuit,
    ShowHelp,
    NewGroup(String),
    Unknown,
}

impl View for Command {
    type V = CommandV;

    open spec fn view(&self) -> CommandV {
        match self {
            Command::Save => CommandV::Save,
            Command::SaveQuit => CommandV::SaveQuit,
            Command::Quit => CommandV::Quit,
            Command::ForceQuit => CommandV::ForceQuit,
            Command::ShowHelp => CommandV::ShowHelp,
            Command::NewGroup(name) => CommandV::NewGroup(name@),
            Command::Unknown => CommandV::Unknown,
        }
    }
}

/// What a command line means: `w`, `wq`, `q`, `q!` and `help` stand alone;
/// `new` takes the rest of the line, rejoined with single spaces, as the
/// group name; anything else is not a command.
pub open spec fn parse_spec(s: Seq<char>) -> CommandV {
    let ts = split_ws(s);
    if ts == seq!["w"@] {
        CommandV::Save
    } else if ts == seq!["wq"@] {
        CommandV::SaveQuit
    } else if ts == seq!["q"@] {
        CommandV::Quit
    } else if ts == seq!["q!"@] {
        CommandV::ForceQuit
    } else if ts == seq!["help"@] {
        CommandV::ShowHelp
    } else if ts.len() >= 1 && ts[0] == "new"@ {
        CommandV::NewGroup(join_spaces(ts.skip(1)))
    } else {
        CommandV::Unknown
    }
}

/// Splits a line at whitespace into its tokens.
pub fn tokenize(s: &str) -> (r: Vec<String>)
    ensures
        r.deep_view() == split_ws(s@),
{
    let n: usize = s.unicode_len();
    let mut toks: Vec<String> = Vec::new();
    let mut cur = String::new();
    let mut i: usize = 0;
    proof {
        assert(s@.take(0) =~= Seq::<char>::empty());
    }
    while i < n
        invariant
            n == s@.len(),
            i <= n,
            (toks.deep_view(), cur@) == scan_ws(s@.take(i as int)),
        decreases n - i,
    {
        let c = s.get_char(i);
        proof {
            assert(s@.take(i + 1).drop_last() =~= s@.take(i as int));
            assert(s@.take(i + 1).last() == s@[i as int]);
        }
        if char_is_whitespace(c) {
            if !cur.as_str().is_empty() {
                let ghost pre = toks.deep_view();
                toks.push(cur);
                cur = String::new();
                assert(toks.deep_view() =~= pre.push(scan_ws(s@.take(i as int)).1));
            }
        } else {
            cur.push(c);
        }
        i = i + 1;
    }
    proof {
        assert(s@.take(n as int) =~= s@);
    }
    if !cur.as_str().is_empty() {
        let ghost pre = toks.deep_view();
        toks.push(cur);
        assert(toks.deep_view() =~= pre.push(scan_ws(s@).1));
    }
    toks
}

/// Joins the tokens from the given position on with single spaces.
pub fn join_from(ts: &Vec<String>, from: usize) -> (r: String)
    requires
        from <= ts@.len(),
    ensures
        r@ == join_spaces(ts.deep_view().skip(from as int)),
{
    let ghost tail = ts.deep_view().skip(from as int);
    let mut r = String::new();
    let mut j: usize = from;
    proof {
        assert(ts.deep_view().subrange(from as int, from as int) =~= Seq::<Seq<char>>::empty());
    }
    while j < ts.len()
        invariant
            from <= j <= ts@.len(),
            r@ == join_spaces(ts.deep_view().subrange(from as int, j as int)),
        decreases ts@.len() - j,
    {
        proof {
            let sub = ts.deep_view().subrange(from as int, j + 1);
            assert(sub.drop_last() =~= ts.deep_view().subrange(from as int, j as int));
            assert(sub.last() == ts.deep_view()[j as int]);
        }
        if j > from {
            r.push(' ');
        }
        r.append(ts[j].as_str());
        assert(r@ =~= join_spaces(ts.deep_view().subrange(from as int, j + 1)));
        j = j + 1;
    }
    proof {
        assert(ts.deep_view().subrange(from as int, ts@.len() as int) =~= tail);
    }
    r
}

/// Parses the `:`-mode buffer into the command grammar.
pub fn parse_command(s: &str) -> (r: Command)
    ensures
        r@ == parse_spec(s@),
{
    let ts = tokenize(s);
    let ghost tsv = ts.deep_view();
    if ts.len() == 1 {
        assert(tsv[0] == ts@[0]@);
        if ts[0] == "w".to_owned() {
            assert(tsv =~= seq!["w"@]);
            return Command::Save;
        }
        if ts[0] == "wq".to_owned() {
            assert(tsv =~= seq!["wq"@]);
            return Command::SaveQuit;
        }
        if ts[0] == "q".to_owned() {
            assert(tsv =~= seq!["q"@]);
            return Command::Quit;
        }
        if ts[0] == "q!".to_owned() {
            assert(tsv =~= seq!["q!"@]);
            return Command::ForceQuit;
        }
        if ts[0] == "help".to_owned() {
            assert(tsv =~= seq!["help"@]);
            return Command::ShowHelp;
        }
    }
    proof {
        if tsv == seq!["w"@] || tsv == seq!["wq"@] || tsv == seq!["q"@] || tsv == seq!["q!"@]
            || tsv == seq!["help"@] {
            assert(tsv.len() == 1);
            assert(ts@[0]@ == tsv[0]);
        }
    }
    if ts.len() >= 1 {
        assert(tsv[0] == ts@[0]@);
        if ts[0] == "new".to_owned() {
            let name = join_from(&ts, 1);
            return Command::NewGroup(name);
        }
    }
    Command::Unknown
}

} // verus!
