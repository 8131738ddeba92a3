//! Command lines: words, redirections and pipes.

use vstd::prelude::*;
use vstd::string::StringSliceAdditionalSpecFns;
use crate::net::wire::copy_range;

verus! {

pub const QUOTE: u8 = 0x22;

pub const BLANK: u8 = 0x20;

pub const GREATER: u8 = 0x3E;

pub const LESS: u8 = 0x3C;

pub const BAR: u8 = 0x7C;

/// Where a command takes its input from or sends its output to.
#[derive(Debug)]
pub enum Redirection {
    /// Neither file nor pipe.
    NoRedirect,
    /// `<`: the input comes from a file.
    Input(Vec<u8>),
    /// `>`: the output replaces a file.
    Output(Vec<u8>),
    /// `>>`: the output goes to the end of a file.
    Append(Vec<u8>),
    /// `|`: the input comes from another command.
    Pipe(Box<Command>),
}

#[derive(Debug)]
pub struct Command {
    pub name: Vec<u8>,
    pub args: Vec<Vec<u8>>,
    pub input_redirect: Redirection,
    pub output_redirect: Redirection,
}

/// A redirection as mathematics.
pub enum RedirectionView {
    NoRedirect,
    Input(Seq<u8>),
    Output(Seq<u8>),
    Append(Seq<u8>),
    Pipe(Box<CommandView>),
}

/// A command as mathematics.
pub struct CommandView {
    pub name: Seq<u8>,
    pub args: Seq<Seq<u8>>,
    pub input_redirect: RedirectionView,
    pub output_redirect: RedirectionView,
}

/// The word `>`.
pub open spec fn word_output() -> Seq<u8> {
    seq![GREATER]
}

/// The word `>>`.
pub open spec fn word_append() -> Seq<u8> {
    seq![GREATER, GREATER]
}

/// The word `<`.
pub open spec fn word_input() -> Seq<u8> {
    seq![LESS]
}

/// The word `|`.
pub open spec fn word_pipe() -> Seq<u8> {
    seq![BAR]
}

/// The words with the word in hand, if there is one.
pub open spec fn flushed(words: Seq<Seq<u8>>, current: Seq<u8>) -> Seq<Seq<u8>> {
    if current.len() > 0 {
        words.push(current)
    } else {
        words
    }
}

/// The words of the line `input` from place `i` on, behind the words
/// `words` and the word in hand `current`. A quote switches quoting on and
/// off and belongs to no word. A blank outside quotes ends a word. The
/// signs `<`, `>`, `>>` and `|` end a word and are words of their own,
/// inside quotes too.
pub open spec fn lexed(
    input: Seq<u8>,
    i: nat,
    words: Seq<Seq<u8>>,
    current: Seq<u8>,
    quoted: bool,
) -> Seq<Seq<u8>>
    decreases input.len() - i,
{
    if i >= input.len() {
        flushed(words, current)
    } else {
        let c = input[i as int];
        if c == QUOTE {
            lexed(input, i + 1, words, current, !quoted)
        } else if c == BLANK && !quoted {
            lexed(input, i + 1, flushed(words, current), Seq::empty(), quoted)
        } else if c == GREATER {
            if i + 1 < input.len() && input[i as int + 1] == GREATER {
                lexed(
                    input,
                    i + 2,
                    flushed(words, current).push(word_append()),
                    Seq::empty(),
                    quoted,
                )
            } else {
                lexed(
                    input,
                    i + 1,
                    flushed(words, current).push(word_output()),
                    Seq::empty(),
                    quoted,
                )
            }
        } else if c == LESS {
            lexed(input, i + 1, flushed(words, current).push(word_input()), Seq::empty(), quoted)
        } else if c == BAR {
            lexed(input, i + 1, flushed(words, current).push(word_pipe()), Seq::empty(), quoted)
        } else {
            lexed(input, i + 1, words, current.push(c), quoted)
        }
    }
}

/// The words of the line `input`.
pub open spec fn words_of(input: Seq<u8>) -> Seq<Seq<u8>> {
    lexed(input, 0, Seq::empty(), Seq::empty(), false)
}

/// The stages with the stage in hand, if it holds a word.
pub open spec fn closed(stages: Seq<Seq<Seq<u8>>>, current: Seq<Seq<u8>>) -> Seq<Seq<Seq<u8>>> {
    if current.len() > 0 {
        stages.push(current)
    } else {
        stages
    }
}

/// The stages of a pipeline: the words from place `i` on, parted at the
/// pipe signs; a stage without words does not count.
pub open spec fn staged(
    words: Seq<Seq<u8>>,
    i: nat,
    stages: Seq<Seq<Seq<u8>>>,
    current: Seq<Seq<u8>>,
) -> Seq<Seq<Seq<u8>>>
    decreases words.len() - i,
{
    if i >= words.len() {
        closed(stages, current)
    } else if words[i as int] == word_pipe() {
        staged(words, i + 1, closed(stages, current), Seq::empty())
    } else {
        staged(words, i + 1, stages, current.push(words[i as int]))
    }
}

/// The command that the words `parts` of one stage make, read from place
/// `i` on: the first word is the name; `<`, `>` and `>>` take the word
/// behind them as their file, the last of each kind counts, and every
/// other word is an argument. A redirection without a file makes no command.
pub open spec fn built(
    parts: Seq<Seq<u8>>,
    i: nat,
    args: Seq<Seq<u8>>,
    input: RedirectionView,
    output: RedirectionView,
) -> Option<CommandView>
    decreases parts.len() - i,
{
    if i >= parts.len() {
        if parts.len() == 0 {
            None
        } else {
            Some(
                CommandView { name: parts[0], args, input_redirect: input, output_redirect: output },
            )
        }
    } else if parts[i as int] == word_input() {
        if i + 1 < parts.len() {
            built(parts, i + 2, args, RedirectionView::Input(parts[i as int + 1]), output)
        } else {
            None
        }
    } else if parts[i as int] == word_output() {
        if i + 1 < parts.len() {
            built(parts, i + 2, args, input, RedirectionView::Output(parts[i as int + 1]))
        } else {
            None
        }
    } else if parts[i as int] == word_append() {
        if i + 1 < parts.len() {
            built(parts, i + 2, args, input, RedirectionView::Append(parts[i as int + 1]))
        } else {
            None
        }
    } else {
        built(parts, i + 1, args.push(parts[i as int]), input, output)
    }
}

/// The command that the first `k` stages make, the later stages having
/// made `later`: the stages are taken from the last to the first, and each
/// gets the command made so far as the pipe that its input comes from.
pub open spec fn piped(stages: Seq<Seq<Seq<u8>>>, k: nat, later: Option<CommandView>) -> Option<
    CommandView,
>
    decreases k,
{
    if k == 0 {
        later
    } else {
        let input = match later {
            Some(c) => RedirectionView::Pipe(Box::new(c)),
            None => RedirectionView::NoRedirect,
        };
        match built(stages[k - 1], 1, Seq::empty(), input, RedirectionView::NoRedirect) {
            Some(c) => piped(stages, (k - 1) as nat, Some(c)),
            None => None,
        }
    }
}

/// The command that the line `input` holds, if it holds one.
pub open spec fn command_of(input: Seq<u8>) -> Option<CommandView> {
    let stages = staged(words_of(input), 0, Seq::empty(), Seq::empty());
    piped(stages, stages.len(), None)
}

/// The words of `v`, each as its bytes.
pub open spec fn words_view(v: Seq<Vec<u8>>) -> Seq<Seq<u8>> {
    Seq::new(v.len(), |i: int| v[i]@)
}

/// The stages of `v`, each as its words.
pub open spec fn stages_view(v: Seq<Vec<Vec<u8>>>) -> Seq<Seq<Seq<u8>>> {
    Seq::new(v.len(), |i: int| words_view(v[i]@))
}

impl Redirection {
    pub open spec fn view(&self) -> RedirectionView
        decreases self,
    {
        match self {
            Redirection::NoRedirect => RedirectionView::NoRedirect,
            Redirection::Input(file) => RedirectionView::Input(file@),
            Redirection::Output(file) => RedirectionView::Output(file@),
            Redirection::Append(file) => RedirectionView::Append(file@),
            Redirection::Pipe(command) => RedirectionView::Pipe(Box::new(command.view())),
        }
    }
}

impl Command {
    pub open spec fn view(&self) -> CommandView
        decreases self,
    {
        CommandView {
            name: self.name@,
            args: words_view(self.args@),
            input_redirect: self.input_redirect.view(),
            output_redirect: self.output_redirect.view(),
        }
    }

    fn is_word(word: &Vec<u8>, first: u8, second: Option<u8>) -> (r: bool)
        ensures
            r == (word@ == match second {
                Some(s) => seq![first, s],
                None => seq![first],
            }),
    {
        let r = match second {
            Some(s) => word.len() == 2 && word[0] == first && word[1] == s,
            None => word.len() == 1 && word[0] == first,
        };
        proof {
            let target = match second {
                Some(s) => seq![first, s],
                None => seq![first],
            };
            if r {
                assert(word@ =~= target);
            }
        }
        r
    }

    fn copy(word: &Vec<u8>) -> (r: Vec<u8>)
        ensures
            r@ == word@,
    {
        let r = copy_range(word.as_slice(), 0, word.len());
        assert(word@.subrange(0, word@.len() as int) =~= word@);
        r
    }

    fn flush(words: &mut Vec<Vec<u8>>, current: &mut Vec<u8>)
        ensures
            words_view(final(words)@) == flushed(words_view(old(words)@), old(current)@),
            final(current)@.len() == 0,
    {
        if current.len() > 0 {
            let mut word: Vec<u8> = Vec::new();
            std::mem::swap(&mut word, current);
            let ghost before = words_view(words@);
            words.push(word);
            assert(words_view(words@) =~= before.push(old(current)@));
        }
    }

    fn sign(words: &mut Vec<Vec<u8>>, first: u8, second: Option<u8>)
        ensures
            words_view(final(words)@) == words_view(old(words)@).push(
                match second {
                    Some(s) => seq![first, s],
                    None => seq![first],
                },
            ),
    {
        let mut word: Vec<u8> = Vec::new();
        word.push(first);
        match second {
            Some(s) => {
                word.push(s);
            },
            None => {},
        }
        let ghost before = words_view(words@);
        let ghost target = match second {
            Some(s) => seq![first, s],
            None => seq![first],
        };
        assert(word@ =~= target);
        words.push(word);
        assert(words_view(words@) =~= before.push(target));
    }

    /// The words of the line `input`.
    pub fn lex(input: &[u8]) -> (r: Vec<Vec<u8>>)
        ensures
            words_view(r@) == words_of(input@),
    {
        let mut words: Vec<Vec<u8>> = Vec::new();
        let mut current: Vec<u8> = Vec::new();
        let mut quoted = false;
        let n = input.len();
        let mut i: usize = 0;
        assert(words_view(words@) =~= Seq::<Seq<u8>>::empty());
        while i < n
            invariant
                n == input@.len(),
                i <= n,
                words_of(input@) == lexed(
                    input@,
                    i as nat,
                    words_view(words@),
                    current@,
                    quoted,
                ),
            decreases n - i,
        {
            let c = input[i];
            if c == QUOTE {
                quoted = !quoted;
                i = i + 1;
            } else if c == BLANK && !quoted {
                Self::flush(&mut words, &mut current);
                assert(current@ =~= Seq::<u8>::empty());
                i = i + 1;
            } else if c == GREATER {
                Self::flush(&mut words, &mut current);
                assert(current@ =~= Seq::<u8>::empty());
                if n - i > 1 && input[i + 1] == GREATER {
                    Self::sign(&mut words, GREATER, Some(GREATER));
                    i = i + 2;
                } else {
                    Self::sign(&mut words, GREATER, None);
                    i = i + 1;
                }
            } else if c == LESS {
                Self::flush(&mut words, &mut current);
                assert(current@ =~= Seq::<u8>::empty());
                Self::sign(&mut words, LESS, None);
                i = i + 1;
            } else if c == BAR {
                Self::flush(&mut words, &mut current);
                assert(current@ =~= Seq::<u8>::empty());
                Self::sign(&mut words, BAR, None);
                i = i + 1;
            } else {
                current.push(c);
                i = i + 1;
            }
        }
        Self::flush(&mut words, &mut current);
        words
    }

    fn close(stages: &mut Vec<Vec<Vec<u8>>>, current: &mut Vec<Vec<u8>>)
        ensures
            stages_view(final(stages)@) == closed(
                stages_view(old(stages)@),
                words_view(old(current)@),
            ),
            final(current)@.len() == 0,
    {
        if current.len() > 0 {
            let mut stage: Vec<Vec<u8>> = Vec::new();
            std::mem::swap(&mut stage, current);
            let ghost before = stages_view(stages@);
            stages.push(stage);
            assert(stages_view(stages@) =~= before.push(words_view(old(current)@)));
        } else {
            assert(words_view(current@) =~= Seq::<Seq<u8>>::empty());
        }
    }

    /// The stages of the pipeline that `words` make.
    pub fn stages(words: &Vec<Vec<u8>>) -> (r: Vec<Vec<Vec<u8>>>)
        ensures
            stages_view(r@) == staged(words_view(words@), 0, Seq::empty(), Seq::empty()),
    {
        let mut stages: Vec<Vec<Vec<u8>>> = Vec::new();
        let mut current: Vec<Vec<u8>> = Vec::new();
        let ghost all = words_view(words@);
        let mut i: usize = 0;
        assert(stages_view(stages@) =~= Seq::<Seq<Seq<u8>>>::empty());
        assert(words_view(current@) =~= Seq::<Seq<u8>>::empty());
        while i < words.len()
            invariant
                i <= words@.len(),
                all == words_view(words@),
                staged(all, 0, Seq::empty(), Seq::empty()) == staged(
                    all,
                    i as nat,
                    stages_view(stages@),
                    words_view(current@),
                ),
            decreases words@.len() - i,
        {
            assert(all[i as int] == words@[i as int]@);
            if Self::is_word(&words[i], BAR, None) {
                Self::close(&mut stages, &mut current);
                assert(words_view(current@) =~= Seq::<Seq<u8>>::empty());
            } else {
                let ghost before = words_view(current@);
                current.push(Self::copy(&words[i]));
                assert(words_view(current@) =~= before.push(all[i as int]));
            }
            i = i + 1;
        }
        Self::close(&mut stages, &mut current);
        stages
    }

    /// The command that the words `parts` of one stage make, with `input`
    /// as the redirection of its input to start with.
    pub fn build(parts: &Vec<Vec<u8>>, input: Redirection) -> (r: Option<Command>)
        requires
            parts@.len() > 0,
        ensures
            match built(words_view(parts@), 1, Seq::empty(), input.view(), RedirectionView::NoRedirect) {
                Some(c) => r matches Some(command) && command@ == c,
                None => r is None,
            },
    {
        let ghost all = words_view(parts@);
        let name = Self::copy(&parts[0]);
        let mut args: Vec<Vec<u8>> = Vec::new();
        let mut input_redirect = input;
        let mut output_redirect = Redirection::NoRedirect;
        let n = parts.len();
        let mut i: usize = 1;
        assert(words_view(args@) =~= Seq::<Seq<u8>>::empty());
        while i < n
            invariant
                n == parts@.len(),
                1 <= i <= n,
                all == words_view(parts@),
                name@ == all[0],
                built(all, 1, Seq::empty(), input.view(), RedirectionView::NoRedirect) == built(
                    all,
                    i as nat,
                    words_view(args@),
                    input_redirect.view(),
                    output_redirect.view(),
                ),
            decreases n - i,
        {
            assert(all[i as int] == parts@[i as int]@);
            let word = &parts[i];
            if Self::is_word(word, LESS, None) {
                if n - i < 2 {
                    return None;
                }
                assert(all[i + 1] == parts@[i + 1]@);
                input_redirect = Redirection::Input(Self::copy(&parts[i + 1]));
                i = i + 2;
            } else if Self::is_word(word, GREATER, None) {
                if n - i < 2 {
                    return None;
                }
                assert(all[i + 1] == parts@[i + 1]@);
                output_redirect = Redirection::Output(Self::copy(&parts[i + 1]));
                i = i + 2;
            } else if Self::is_word(word, GREATER, Some(GREATER)) {
                if n - i < 2 {
                    return None;
                }
                assert(all[i + 1] == parts@[i + 1]@);
                output_redirect = Redirection::Append(Self::copy(&parts[i + 1]));
                i = i + 2;
            } else {
                let ghost before = words_view(args@);
                args.push(Self::copy(word));
                assert(words_view(args@) =~= before.push(all[i as int]));
                i = i + 1;
            }
        }
        Some(Command { name, args, input_redirect, output_redirect })
    }

    /// The command that the line `input` holds: see `command_of`. A line
    /// without words holds none, and neither does a line with a
    /// redirection that lacks its file.
    #[verifier::loop_isolation(false)]
    pub fn parse(input: &[u8]) -> (r: Option<Command>)
        ensures
            match command_of(input@) {
                Some(c) => r matches Some(command) && command@ == c,
                None => r is None,
            },
    {
        let words = Self::lex(input);
        let stages = Self::stages(&words);
        let ghost all = stages_view(stages@);
        proof {
            lemma_stages_hold_words(words_view(words@), 0, Seq::empty(), Seq::empty());
        }
        let mut later: Option<Command> = None;
        let mut k: usize = stages.len();
        while k > 0
            invariant
                k <= stages@.len(),
                all == stages_view(stages@),
                forall|j: int| 0 <= j < all.len() ==> (#[trigger] all[j]).len() > 0,
                piped(all, all.len(), None) == piped(
                    all,
                    k as nat,
                    match later {
                        Some(c) => Some(c@),
                        None => None,
                    },
                ),
            decreases k,
        {
            let input = match later {
                Some(c) => Redirection::Pipe(Box::new(c)),
                None => Redirection::NoRedirect,
            };
            assert(all[k - 1] == words_view(stages@[k - 1]@));
            assert(all[k - 1].len() > 0);
            later = match Self::build(&stages[k - 1], input) {
                Some(c) => Some(c),
                None => {
                    return None;
                },
            };
            k = k - 1;
        }
        later
    }

    /// The command that the line `input` holds.
    pub fn new(input: &str) -> (r: Option<Self>)
        ensures
            match command_of(input.spec_bytes()) {
                Some(c) => r matches Some(command) && command@ == c,
                None => r is None,
            },
    {
        Self::parse(input.as_bytes())
    }
}

/// Every stage of a pipeline holds a word.
pub proof fn lemma_stages_hold_words(
    words: Seq<Seq<u8>>,
    i: nat,
    stages: Seq<Seq<Seq<u8>>>,
    current: Seq<Seq<u8>>,
)
    requires
        forall|j: int| 0 <= j < stages.len() ==> (#[trigger] stages[j]).len() > 0,
    ensures
        forall|j: int|
            0 <= j < staged(words, i, stages, current).len() ==> (#[trigger] staged(
                words,
                i,
                stages,
                current,
            )[j]).len() > 0,
    decreases words.len() - i,
{
    let shut = closed(stages, current);
    assert forall|j: int| 0 <= j < shut.len() implies (#[trigger] shut[j]).len() > 0 by {
        if j < stages.len() {
            assert(shut[j] == stages[j]);
        } else {
            assert(current.len() > 0);
            assert(shut[j] == current);
        }
    }
    if i >= words.len() {
        assert(staged(words, i, stages, current) == shut);
    } else if words[i as int] == word_pipe() {
        lemma_stages_hold_words(words, i + 1, shut, Seq::empty());
        assert(staged(words, i, stages, current) == staged(words, i + 1, shut, Seq::empty()));
    } else {
        lemma_stages_hold_words(words, i + 1, stages, current.push(words[i as int]));
        assert(staged(words, i, stages, current) == staged(
            words,
            i + 1,
            stages,
            current.push(words[i as int]),
        ));
    }
}

} // verus!
