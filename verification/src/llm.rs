//! The language-model strategy's own logic: the table of model variants,
//! the cleaning of raw generator output, and the collection of distinct
//! completions over several attempts.

use crate::suggestion::{views_of, Suggestion, SuggestionView, SCORE_UNIT};
use crate::text::{
    chars_of, contains_chars, copy_lines, has_substring, line_chars, lines_of, starts_with_chars, string_of,
    texts, trim_chars, trimmed, views,
};
use vstd::string::StringExecFns;
use vstd::prelude::*;

verus! {

/// Which quantised Qwen2 model to run.
#[derive(Debug, Clone, Copy, PartialEq, Eq, Structural)]
pub enum Which {
    W0_5b,
    W1_5b,
    W7b,
}

/// A variant name that [`Which::from_str`] does not know.
#[derive(Debug)]
pub struct UnknownVariant {
    pub name: String,
}

/// Whether two strings hold the same text.
pub fn same_text(a: &str, b: &str) -> (r: bool)
    ensures
        r == (a@ == b@),
{
    let x = chars_of(a);
    let y = chars_of(b);
    if x.len() != y.len() {
        return false;
    }
    let mut i: usize = 0;
    while i < x.len()
        invariant
            i <= x.len() == y.len(),
            x@ == a@,
            y@ == b@,
            forall|j: int| 0 <= j < i ==> x@[j] == y@[j],
        decreases x.len() - i,
    {
        if x[i] != y[i] {
            assert(a@[i as int] != b@[i as int]);
            return false;
        }
        i = i + 1;
    }
    assert(x@ =~= y@);
    true
}

impl Which {
    /// The variant a name stands for, if any.
    pub open spec fn named(s: Seq<char>) -> Option<Which> {
        if s == "0.5b"@ {
            Some(Which::W0_5b)
        } else if s == "1.5b"@ {
            Some(Which::W1_5b)
        } else if s == "7b"@ {
            Some(Which::W7b)
        } else {
            None
        }
    }

    /// Reads a variant name: `0.5b`, `1.5b` or `7b`.
    pub fn from_str(s: &str) -> (r: Result<Which, UnknownVariant>)
        ensures
            match r {
                Ok(w) => Which::named(s@) == Some(w),
                Err(e) => Which::named(s@) is None && e.name@ == s@,
            },
    {
        if same_text(s, "0.5b") {
            Ok(Which::W0_5b)
        } else if same_text(s, "1.5b") {
            Ok(Which::W1_5b)
        } else if same_text(s, "7b") {
            Ok(Which::W7b)
        } else {
            Err(UnknownVariant { name: s.to_owned() })
        }
    }

    /// The repository that holds the model's weights.
    pub fn repo(&self) -> (r: &'static str)
        ensures
            r@ == match *self {
                Which::W0_5b => "unsloth/Qwen2.5-Coder-0.5B-Instruct-GGUF"@,
                Which::W1_5b => "Qwen/Qwen2-1.5B-Instruct-GGUF"@,
                Which::W7b => "Qwen/Qwen2-7B-Instruct-GGUF"@,
            },
    {
        match self {
            Which::W0_5b => "unsloth/Qwen2.5-Coder-0.5B-Instruct-GGUF",
            Which::W1_5b => "Qwen/Qwen2-1.5B-Instruct-GGUF",
            Which::W7b => "Qwen/Qwen2-7B-Instruct-GGUF",
        }
    }

    /// The file name of the model's weights in its repository.
    pub fn filename(&self) -> (r: &'static str)
        ensures
            r@ == match *self {
                Which::W0_5b => "Qwen2.5-Coder-0.5B-Instruct-Q4_K_M.gguf"@,
                Which::W1_5b => "qwen2-1_5b-instruct-q4_0.gguf"@,
                Which::W7b => "qwen2-7b-instruct-q4_0.gguf"@,
            },
    {
        match self {
            Which::W0_5b => "Qwen2.5-Coder-0.5B-Instruct-Q4_K_M.gguf",
            Which::W1_5b => "qwen2-1_5b-instruct-q4_0.gguf",
            Which::W7b => "qwen2-7b-instruct-q4_0.gguf",
        }
    }

    /// The repository that holds the model's tokenizer.
    pub fn tokenizer_repo(&self) -> (r: &'static str)
        ensures
            r@ == match *self {
                Which::W0_5b => "Qwen/Qwen2.5-Coder-0.5B-Instruct"@,
                Which::W1_5b => "Qwen/Qwen2-1.5B-Instruct"@,
                Which::W7b => "Qwen/Qwen2-7B-Instruct"@,
            },
    {
        match self {
            Which::W0_5b => "Qwen/Qwen2.5-Coder-0.5B-Instruct",
            Which::W1_5b => "Qwen/Qwen2-1.5B-Instruct",
            Which::W7b => "Qwen/Qwen2-7B-Instruct",
        }
    }
}

/// A trimmed line that reports on the generator rather than being
/// generated text: loader and sampler banners, timing lines, log lines.
pub open spec fn is_generator_noise(line: Seq<char>) -> bool {
    ||| "llama_"@.is_prefix_of(line)
    ||| "sampling"@.is_prefix_of(line)
    ||| has_substring(line, "ms / "@)
    ||| has_substring(line, "tok/s"@)
    ||| "Log"@.is_prefix_of(line)
}

/// The first line that, trimmed, is neither empty nor generator noise.
pub open spec fn first_payload(lines: Seq<Seq<char>>) -> Option<Seq<char>>
    decreases lines.len(),
{
    if lines.len() == 0 {
        None
    } else {
        let t = trimmed(lines[0]);
        if t.len() > 0 && !is_generator_noise(t) {
            Some(t)
        } else {
            first_payload(lines.drop_first())
        }
    }
}

/// The first line that, trimmed, is not empty.
pub open spec fn first_nonblank(lines: Seq<Seq<char>>) -> Option<Seq<char>>
    decreases lines.len(),
{
    if lines.len() == 0 {
        None
    } else {
        let t = trimmed(lines[0]);
        if t.len() > 0 {
            Some(t)
        } else {
            first_nonblank(lines.drop_first())
        }
    }
}

/// The generated text in a generator's raw output: the first line that is
/// not noise; failing that, the first line that is not empty; failing
/// that, nothing.
pub open spec fn generated_text(raw: Seq<char>) -> Seq<char> {
    let lines = lines_of(raw);
    match first_payload(lines) {
        Some(t) => t,
        None => match first_nonblank(lines) {
            Some(t) => t,
            None => Seq::empty(),
        },
    }
}

/// Whether a trimmed line is generator noise.
pub fn line_is_noise(line: &Vec<char>) -> (b: bool)
    ensures
        b == is_generator_noise(line@),
{
    let loader = chars_of("llama_");
    let sampler = chars_of("sampling");
    let timing = chars_of("ms / ");
    let rate = chars_of("tok/s");
    let log = chars_of("Log");
    starts_with_chars(line, &loader) || starts_with_chars(line, &sampler) || contains_chars(
        line,
        &timing,
    ) || contains_chars(line, &rate) || starts_with_chars(line, &log)
}

/// Extracts the generated text from a generator's raw output.
pub fn parse_llama_output(text: &str) -> (r: String)
    ensures
        r@ == generated_text(text@),
{
    let raw = chars_of(text);
    let lines = line_chars(&raw);
    let ghost all = lines_of(text@);
    let mut i: usize = 0;
    assert(all.skip(0) =~= all);
    while i < lines.len()
        invariant
            i <= lines.len(),
            views(lines@) == all,
            all == lines_of(text@),
            first_payload(all) == first_payload(all.skip(i as int)),
        decreases lines.len() - i,
    {
        let t = trim_chars(&lines[i]);
        assert(all.skip(i as int)[0] == lines@[i as int]@);
        if t.len() > 0 && !line_is_noise(&t) {
            assert(first_payload(all.skip(i as int)) == Some(t@));
            return string_of(&t);
        }
        assert(all.skip(i as int).drop_first() =~= all.skip(i + 1));
        i = i + 1;
    }
    let mut k: usize = 0;
    while k < lines.len()
        invariant
            k <= lines.len(),
            views(lines@) == all,
            all == lines_of(text@),
            first_payload(all) is None,
            first_nonblank(all) == first_nonblank(all.skip(k as int)),
        decreases lines.len() - k,
    {
        let t = trim_chars(&lines[k]);
        assert(all.skip(k as int)[0] == lines@[k as int]@);
        if t.len() > 0 {
            assert(first_nonblank(all.skip(k as int)) == Some(t@));
            return string_of(&t);
        }
        assert(all.skip(k as int).drop_first() =~= all.skip(k + 1));
        k = k + 1;
    }
    String::new()
}

/// The weight of the language-model strategy: 0.4.
pub const LLM_WEIGHT: u32 = 400;

/// How many distinct completions are collected at most.
pub const MAX_COMPLETIONS: usize = 5;

/// How many times the generator is asked at most.
pub const MAX_ATTEMPTS: u64 = 10;

/// How the generator is run.
#[derive(Debug)]
pub struct LlmConfig {
    pub model_path: String,
    /// Sampling temperature in thousandths.
    pub temperature: u32,
    pub max_tokens: usize,
    pub seed: u64,
}

impl Default for LlmConfig {
    /// Temperature 0.05, three tokens per completion, a fixed seed, and no
    /// model named yet.
    fn default() -> (r: Self)
        ensures
            r.model_path@.len() == 0,
            r.temperature == 50,
            r.max_tokens == 3,
            r.seed == 299792458,
    {
        LlmConfig { model_path: String::new(), temperature: 50, max_tokens: 3, seed: 299792458 }
    }
}

impl LlmConfig {
    /// The configuration for the model at `model_path`: temperature 0.05,
    /// three tokens per completion, a fixed seed.
    pub fn for_model(model_path: String) -> (r: Self)
        ensures
            r.model_path == model_path,
            r.temperature == 50,
            r.max_tokens == 3,
            r.seed == 299792458,
    {
        LlmConfig { model_path, temperature: 50, max_tokens: 3, seed: 299792458 }
    }
}

/// The decimal digit of a value below ten.
pub open spec fn digit(n: int) -> char {
    (48 + n) as u8 as char
}

/// A number in decimal, without leading zeros.
pub open spec fn decimal(n: nat) -> Seq<char>
    decreases n,
{
    if n < 10 {
        seq![digit(n as int)]
    } else {
        decimal(n / 10).push(digit((n % 10) as int))
    }
}

/// Thousandths as a decimal fraction with three places.
pub open spec fn fixed_decimal(milli: nat) -> Seq<char> {
    decimal(milli / 1000) + seq![
        '.',
        digit((milli / 100 % 10) as int),
        digit((milli / 10 % 10) as int),
        digit((milli % 10) as int),
    ]
}

/// Appends one decimal digit.
fn push_digit(out: &mut String, d: u64)
    requires
        d < 10,
    ensures
        final(out)@ == old(out)@.push(digit(d as int)),
{
    let byte: u8 = 48 + d as u8;
    out.push(byte as char);
}

/// Appends `n` in decimal.
pub fn push_decimal(out: &mut String, n: u64)
    ensures
        final(out)@ == old(out)@ + decimal(n as nat),
    decreases n,
{
    if n >= 10 {
        push_decimal(out, n / 10);
        push_digit(out, n % 10);
        assert(out@ =~= old(out)@ + decimal(n as nat));
    } else {
        push_digit(out, n);
        assert(out@ =~= old(out)@ + decimal(n as nat));
    }
}

/// `n` in decimal.
pub fn decimal_string(n: u64) -> (r: String)
    ensures
        r@ == decimal(n as nat),
{
    let mut out = String::new();
    push_decimal(&mut out, n);
    assert(out@ =~= decimal(n as nat));
    out
}

/// Thousandths as a decimal fraction.
pub fn fixed_decimal_string(milli: u32) -> (r: String)
    ensures
        r@ == fixed_decimal(milli as nat),
{
    let m: u64 = milli as u64;
    let mut out = String::new();
    push_decimal(&mut out, m / 1000);
    out.push('.');
    push_digit(&mut out, m / 100 % 10);
    push_digit(&mut out, m / 10 % 10);
    push_digit(&mut out, m % 10);
    assert(out@ =~= fixed_decimal(milli as nat));
    out
}

/// The few-shot prompt for `input`: three worked examples, then the input
/// and an arrow for the generator to continue from.
pub open spec fn prompt_for(input: Seq<char>) -> Seq<char> {
    "git s\u{2192}status\ndocker p\u{2192}ps\nnpm i\u{2192}install\n"@ + input + "\u{2192}"@
}

/// The few-shot prompt for `input`.
pub fn few_shot_prompt(input: &str) -> (r: String)
    ensures
        r@ == prompt_for(input@),
{
    let mut out = String::from_str("git s\u{2192}status\ndocker p\u{2192}ps\nnpm i\u{2192}install\n");
    out.append(input);
    out.append("\u{2192}");
    out
}

/// The arguments of one generator run: model, prompt, token limit,
/// temperature, greedy top-k, seed, and the flags that make the generator
/// print one line of plain continuation.
pub open spec fn generator_args(
    model_path: Seq<char>,
    temperature: nat,
    max_tokens: nat,
    input: Seq<char>,
    seed: nat,
) -> Seq<Seq<char>> {
    seq![
        "-m"@,
        model_path,
        "-p"@,
        prompt_for(input),
        "-n"@,
        decimal(max_tokens),
        "--temp"@,
        fixed_decimal(temperature),
        "--top-k"@,
        "1"@,
        "--seed"@,
        decimal(seed),
        "--no-display-prompt"@,
        "--reverse-prompt"@,
        "\n"@,
        "-no-cnv"@,
    ]
}

/// The arguments of one generator run for `input` with `seed`.
pub fn llama_cli_args(config: &LlmConfig, input: &str, seed: u64) -> (args: Vec<String>)
    ensures
        texts(args@) == generator_args(
            config.model_path@,
            config.temperature as nat,
            config.max_tokens as nat,
            input@,
            seed as nat,
        ),
{
    let mut args: Vec<String> = Vec::new();
    args.push("-m".to_owned());
    args.push(config.model_path.clone());
    args.push("-p".to_owned());
    args.push(few_shot_prompt(input));
    args.push("-n".to_owned());
    args.push(decimal_string(config.max_tokens as u64));
    args.push("--temp".to_owned());
    args.push(fixed_decimal_string(config.temperature));
    args.push("--top-k".to_owned());
    args.push("1".to_owned());
    args.push("--seed".to_owned());
    args.push(decimal_string(seed));
    args.push("--no-display-prompt".to_owned());
    args.push("--reverse-prompt".to_owned());
    args.push("\n".to_owned());
    args.push("-no-cnv".to_owned());
    assert(texts(args@) =~= generator_args(
        config.model_path@,
        config.temperature as nat,
        config.max_tokens as nat,
        input@,
        seed as nat,
    ));
    args
}

/// Whether an input is long enough for the generator: at least two bytes
/// once trimmed.
pub open spec fn worth_generating(input: Seq<char>) -> bool {
    vstd::utf8::encode_utf8(trimmed(input)).len() >= 2
}

/// Whether an input is long enough for the generator.
pub fn is_worth_generating(input: &str) -> (b: bool)
    ensures
        b == worth_generating(input@),
{
    let chars = chars_of(input);
    let kept = trim_chars(&chars);
    let text = string_of(&kept);
    text.as_str().as_bytes().len() >= 2
}

/// Whether the generator can be used: not tried yet, found, or found
/// missing. It is looked for once; a failure is remembered.
#[derive(Debug, Clone, Copy, PartialEq, Eq, Structural)]
pub enum BackendState {
    Untried,
    Ready,
    Failed,
}

impl BackendState {
    /// The state after the generator was looked for, if it is to be looked
    /// for at all: only a generator not tried yet is looked for, so that a
    /// failure stays a failure.
    pub open spec fn settled(self, found: bool) -> BackendState {
        if self == BackendState::Untried {
            if found {
                BackendState::Ready
            } else {
                BackendState::Failed
            }
        } else {
            self
        }
    }

    /// Whether the generator is still to be looked for.
    pub fn wants_init(self) -> (b: bool)
        ensures
            b == (self == BackendState::Untried),
    {
        self == BackendState::Untried
    }

    /// Takes in the outcome of looking for the generator.
    pub fn after_init(self, found: bool) -> (r: BackendState)
        ensures
            r == self.settled(found),
            r != BackendState::Untried,
    {
        if self == BackendState::Untried {
            if found {
                BackendState::Ready
            } else {
                BackendState::Failed
            }
        } else {
            self
        }
    }

    /// Whether completions can be asked for.
    pub fn usable(self) -> (b: bool)
        ensures
            b == (self == BackendState::Ready),
    {
        self == BackendState::Ready
    }
}

/// The generator is looked for once: after the first outcome no later
/// outcome changes the state, and no further look is wanted.
pub proof fn lemma_backend_is_tried_once(state: BackendState, first: bool, later: bool)
    ensures
        state.settled(first).settled(later) == state.settled(first),
        state.settled(first) != BackendState::Untried,
{
}

/// The completions collected so far and the number of generator runs made.
#[derive(Debug)]
pub struct CompletionCollector {
    found: Vec<String>,
    attempts: u64,
}

/// What a [`CompletionCollector`] stands for.
pub struct CollectorView {
    pub found: Seq<Seq<char>>,
    pub attempts: nat,
}

impl CollectorView {
    /// Whether the generator is to be asked again: fewer than five
    /// completions were found and fewer than ten runs made.
    pub open spec fn wants_more(self) -> bool {
        self.found.len() < MAX_COMPLETIONS && self.attempts < MAX_ATTEMPTS
    }

    /// At most five completions, all different, none empty, from at most
    /// ten runs.
    pub open spec fn wf(self) -> bool {
        &&& self.found.len() <= MAX_COMPLETIONS
        &&& self.attempts <= MAX_ATTEMPTS
        &&& self.found.no_duplicates()
        &&& forall|i: int| 0 <= i < self.found.len() ==> (#[trigger] self.found[i]).len() > 0
    }

    /// After one more run: the run is counted, and its output, trimmed, is
    /// added unless the run failed or the output is empty or known.
    pub open spec fn offered(self, output: Option<Seq<char>>) -> CollectorView {
        if !self.wants_more() {
            self
        } else {
            CollectorView {
                attempts: self.attempts + 1,
                found: match output {
                    Some(t) => if trimmed(t).len() > 0 && !self.found.contains(trimmed(t)) {
                        self.found.push(trimmed(t))
                    } else {
                        self.found
                    },
                    None => self.found,
                },
            }
        }
    }

    /// The seed of the next run: the base seed plus the number of runs
    /// made, wrapping around.
    pub open spec fn next_seed(self, base: u64) -> u64 {
        if base + self.attempts <= u64::MAX {
            (base + self.attempts) as u64
        } else {
            (base + self.attempts - u64::MAX - 1) as u64
        }
    }
}

/// The view of the output of a run: none for a run that failed.
pub open spec fn output_view(output: Option<&str>) -> Option<Seq<char>> {
    match output {
        Some(t) => Some(t@),
        None => None,
    }
}

/// What the collected completions are proposed as: one suggestion each,
/// with the score 1.0 and the source tag `llm`.
pub open spec fn completion_views(found: Seq<Seq<char>>) -> Seq<SuggestionView> {
    Seq::new(
        found.len(),
        |i: int| SuggestionView { text: found[i], source: Some("llm"@), score: SCORE_UNIT as int },
    )
}

impl View for CompletionCollector {
    type V = CollectorView;

    closed spec fn view(&self) -> CollectorView {
        CollectorView { found: texts(self.found@), attempts: self.attempts as nat }
    }
}

impl CompletionCollector {
    /// Every collector is well formed: its fields are reached through
    /// `new` and `offer` alone, and both keep it so.
    #[verifier::type_invariant]
    spec fn well_formed(self) -> bool {
        self@.wf()
    }

    /// A collector that has seen no run yet.
    pub fn new() -> (r: Self)
        ensures
            r@.found.len() == 0,
            r@.attempts == 0,
            r@.wf(),
    {
        let r = CompletionCollector { found: Vec::new(), attempts: 0 };
        assert(texts(r.found@) =~= Seq::<Seq<char>>::empty());
        r
    }

    /// The seed for the next run of the generator, or none if no further
    /// run is wanted.
    pub fn next_seed(&self, base: u64) -> (r: Option<u64>)
        ensures
            self@.wf(),
            r == if self@.wants_more() {
                Some(self@.next_seed(base))
            } else {
                None::<u64>
            },
    {
        proof {
            use_type_invariant(self);
        }
        if self.found.len() < MAX_COMPLETIONS && self.attempts < MAX_ATTEMPTS {
            if base <= u64::MAX - self.attempts {
                Some(base + self.attempts)
            } else {
                Some(base - (u64::MAX - self.attempts) - 1)
            }
        } else {
            None
        }
    }

    /// Whether `text` was collected already.
    fn knows(&self, text: &String) -> (b: bool)
        ensures
            b == self@.found.contains(text@),
    {
        let mut i: usize = 0;
        while i < self.found.len()
            invariant
                i <= self.found.len(),
                forall|j: int| 0 <= j < i ==> (#[trigger] texts(self.found@)[j]) != text@,
            decreases self.found.len() - i,
        {
            if self.found[i] == *text {
                assert(texts(self.found@)[i as int] == text@);
                return true;
            }
            i = i + 1;
        }
        false
    }

    /// Takes in the outcome of one run of the generator: its raw output
    /// text, or none if the run failed.
    pub fn offer(&mut self, output: Option<&str>)
        ensures
            final(self)@ == old(self)@.offered(output_view(output)),
            final(self)@.wf(),
    {
        proof {
            use_type_invariant(&*self);
        }
        if !(self.found.len() < MAX_COMPLETIONS && self.attempts < MAX_ATTEMPTS) {
            return ;
        }
        let attempts: u64 = self.attempts + 1;
        let mut found = copy_lines(&self.found);
        match output {
            Some(raw) => {
                let chars = chars_of(raw);
                let kept = trim_chars(&chars);
                if kept.len() > 0 {
                    let text = string_of(&kept);
                    if !self.knows(&text) {
                        let ghost before = texts(found@);
                        found.push(text);
                        assert(texts(found@) =~= before.push(trimmed(raw@)));
                    }
                }
            },
            None => {},
        }
        *self = CompletionCollector { found, attempts };
    }

    /// The collected completions as suggestions.
    pub fn into_suggestions(&self) -> (out: Vec<Suggestion>)
        ensures
            views_of(out@) == completion_views(self@.found),
            out.len() <= MAX_COMPLETIONS,
    {
        proof {
            use_type_invariant(self);
        }
        let mut out: Vec<Suggestion> = Vec::new();
        let mut i: usize = 0;
        while i < self.found.len()
            invariant
                i <= self.found.len(),
                out.len() == i,
                forall|j: int|
                    0 <= j < i ==> (#[trigger] out@[j])@ == completion_views(
                        texts(self.found@),
                    )[j],
            decreases self.found.len() - i,
        {
            out.push(Suggestion::with_source(self.found[i].as_str(), SCORE_UNIT, "llm"));
            i = i + 1;
        }
        assert(views_of(out@) =~= completion_views(texts(self.found@)));
        out
    }
}

} // verus!
