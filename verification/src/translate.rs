//! The translator: from a configuration and a match result to the argument
//! vector of the wrapped program.

use vstd::prelude::*;
use clap::ArgMatches;
use yaml_rust::Yaml;
use crate::config::{
    configuration_of, ConfigError, Configuration, ConfigurationView, DescriptorView,
};
use crate::document::node_of;
use crate::matches::{declared_keys, matched, MatchResult};

verus! {

/// The characters of each string of a run.
pub open spec fn texts(tokens: Seq<String>) -> Seq<Seq<char>> {
    Seq::new(tokens.len(), |i: int| tokens[i]@)
}

/// An optional token as a run of no token or one.
pub open spec fn optional_token(token: Option<Seq<char>>) -> Seq<Seq<char>> {
    match token {
        Some(t) => seq![t],
        None => Seq::empty(),
    }
}

/// The tokens that one descriptor contributes: none where its key was not
/// supplied, and else its mapped token, if it has one, followed by the value
/// that the user gave, if there is one.
pub open spec fn tokens_for(d: DescriptorView, supplied: Map<Seq<char>, Option<Seq<char>>>) -> Seq<
    Seq<char>,
> {
    if supplied.dom().contains(d.key) {
        optional_token(d.map) + optional_token(supplied[d.key])
    } else {
        Seq::empty()
    }
}

/// The tokens that a run of descriptors contributes, in the order of the
/// descriptors.
pub open spec fn mapped_tokens(
    args: Seq<DescriptorView>,
    supplied: Map<Seq<char>, Option<Seq<char>>>,
) -> Seq<Seq<char>>
    decreases args.len(),
{
    if args.len() == 0 {
        Seq::empty()
    } else {
        mapped_tokens(args.drop_last(), supplied) + tokens_for(args.last(), supplied)
    }
}

/// The tokens that interactive use adds ahead of all others.
pub open spec fn humanize_tokens(config: ConfigurationView, interactive: bool) -> Seq<Seq<char>> {
    if interactive {
        optional_token(config.humanize)
    } else {
        Seq::empty()
    }
}

/// The outgoing argument vector.
pub open spec fn outgoing(
    config: ConfigurationView,
    supplied: Map<Seq<char>, Option<Seq<char>>>,
    interactive: bool,
) -> Seq<Seq<char>> {
    humanize_tokens(config, interactive) + mapped_tokens(config.args, supplied)
}

/// What the wrapper does on one invocation.
#[derive(Debug, Clone, PartialEq, Eq)]
pub enum Plan {
    /// Print the wrapper's own version and end with success. Nothing is
    /// launched.
    ShowVersion,
    /// Launch the wrapped program with these arguments.
    Launch { executable: String, arguments: Vec<String> },
}

/// The mathematical value of a [`Plan`].
pub enum PlanView {
    ShowVersion,
    Launch { executable: Seq<char>, arguments: Seq<Seq<char>> },
}

impl View for Plan {
    type V = PlanView;

    open spec fn view(&self) -> PlanView {
        match *self {
            Plan::ShowVersion => PlanView::ShowVersion,
            Plan::Launch { executable, arguments } => PlanView::Launch {
                executable: executable@,
                arguments: texts(arguments@),
            },
        }
    }
}

/// The plan of an invocation: the `version` flag, where it was supplied,
/// decides alone, and otherwise the wrapped program is launched with the
/// outgoing argument vector.
pub open spec fn plan_of(
    config: ConfigurationView,
    supplied: Map<Seq<char>, Option<Seq<char>>>,
    interactive: bool,
) -> PlanView {
    if supplied.dom().contains("version"@) {
        PlanView::ShowVersion
    } else {
        PlanView::Launch {
            executable: config.executable,
            arguments: outgoing(config, supplied, interactive),
        }
    }
}

/// The position in the outgoing argument vector at which the tokens of the
/// descriptor at `i` begin. At `i == config.args.len()` it is the length of the
/// vector.
pub open spec fn slot_start(
    config: ConfigurationView,
    supplied: Map<Seq<char>, Option<Seq<char>>>,
    interactive: bool,
    i: int,
) -> int {
    (humanize_tokens(config, interactive).len() + mapped_tokens(
        config.args.take(i),
        supplied,
    ).len()) as int
}

/// The part of the outgoing argument vector that the descriptor at `i`
/// contributes.
pub open spec fn slot(
    config: ConfigurationView,
    supplied: Map<Seq<char>, Option<Seq<char>>>,
    interactive: bool,
    i: int,
) -> Seq<Seq<char>> {
    outgoing(config, supplied, interactive).subrange(
        slot_start(config, supplied, interactive, i),
        slot_start(config, supplied, interactive, i + 1),
    )
}

/// The tokens of the first `k` descriptors open the tokens of all of them.
pub proof fn lemma_mapped_prefix(
    args: Seq<DescriptorView>,
    supplied: Map<Seq<char>, Option<Seq<char>>>,
    k: int,
)
    requires
        0 <= k <= args.len(),
    ensures
        mapped_tokens(args.take(k), supplied).len() <= mapped_tokens(args, supplied).len(),
        mapped_tokens(args, supplied).subrange(0, mapped_tokens(args.take(k), supplied).len() as int)
            == mapped_tokens(args.take(k), supplied),
    decreases args.len() - k,
{
    if k < args.len() {
        assert(args.take(k + 1).drop_last() =~= args.take(k));
        lemma_mapped_prefix(args, supplied, k + 1);
        let shorter = mapped_tokens(args.take(k), supplied);
        let longer = mapped_tokens(args.take(k + 1), supplied);
        assert(longer == shorter + tokens_for(args[k], supplied));
        assert(mapped_tokens(args, supplied).subrange(0, shorter.len() as int) =~= shorter);
    } else {
        assert(args.take(k) =~= args);
        assert(mapped_tokens(args, supplied).subrange(0, mapped_tokens(args, supplied).len() as int)
            =~= mapped_tokens(args, supplied));
    }
}

/// The outgoing argument vector is made of slots, one for each descriptor, in
/// the order in which the configuration declares them: the slot of a
/// descriptor holds exactly the tokens of that descriptor, it begins where the
/// slot before it ends, the first one begins behind the tokens that
/// interactive use adds, and the last one ends where the vector ends.
pub proof fn law_slots(
    config: ConfigurationView,
    supplied: Map<Seq<char>, Option<Seq<char>>>,
    interactive: bool,
    i: int,
)
    requires
        0 <= i < config.args.len(),
    ensures
        slot(config, supplied, interactive, i) == tokens_for(config.args[i], supplied),
        slot_start(config, supplied, interactive, i + 1) == slot_start(
            config,
            supplied,
            interactive,
            i,
        ) + tokens_for(config.args[i], supplied).len(),
        slot_start(config, supplied, interactive, 0) == humanize_tokens(config, interactive).len(),
        slot_start(config, supplied, interactive, config.args.len() as int) == outgoing(
            config,
            supplied,
            interactive,
        ).len(),
{
    let args = config.args;
    let head = humanize_tokens(config, interactive);
    lemma_mapped_prefix(args, supplied, i + 1);
    assert(args.take(i + 1).drop_last() =~= args.take(i));
    assert(args.take(0) =~= Seq::<DescriptorView>::empty());
    assert(args.take(args.len() as int) =~= args);
    let shorter = mapped_tokens(args.take(i), supplied);
    let longer = mapped_tokens(args.take(i + 1), supplied);
    let all = mapped_tokens(args, supplied);
    assert(longer == shorter + tokens_for(args[i], supplied));
    assert(all.subrange(0, longer.len() as int) == longer);
    assert forall|k: int| 0 <= k < longer.len() implies all[k] == longer[k] by {
        assert(all.subrange(0, longer.len() as int)[k] == all[k]);
    }
    assert(slot(config, supplied, interactive, i) =~= tokens_for(args[i], supplied));
}

/// A descriptor whose key was not supplied contributes no token.
pub proof fn law_omission(
    config: ConfigurationView,
    supplied: Map<Seq<char>, Option<Seq<char>>>,
    interactive: bool,
    i: int,
)
    requires
        0 <= i < config.args.len(),
        !supplied.dom().contains(config.args[i].key),
    ensures
        slot(config, supplied, interactive, i) == Seq::<Seq<char>>::empty(),
        slot_start(config, supplied, interactive, i + 1) == slot_start(
            config,
            supplied,
            interactive,
            i,
        ),
{
    law_slots(config, supplied, interactive, i);
}

/// A descriptor with a mapped token whose key was supplied without a value
/// contributes the mapped token and nothing else.
pub proof fn law_mapped_flag(
    config: ConfigurationView,
    supplied: Map<Seq<char>, Option<Seq<char>>>,
    interactive: bool,
    i: int,
    token: Seq<char>,
)
    requires
        0 <= i < config.args.len(),
        config.args[i].map == Some(token),
        supplied.dom().contains(config.args[i].key),
        supplied[config.args[i].key] is None,
    ensures
        slot(config, supplied, interactive, i) == seq![token],
{
    law_slots(config, supplied, interactive, i);
    assert(tokens_for(config.args[i], supplied) =~= seq![token]);
}

/// A descriptor with a mapped token whose key was supplied with a value
/// contributes the mapped token and, directly behind it, the value.
pub proof fn law_mapped_value(
    config: ConfigurationView,
    supplied: Map<Seq<char>, Option<Seq<char>>>,
    interactive: bool,
    i: int,
    token: Seq<char>,
    value: Seq<char>,
)
    requires
        0 <= i < config.args.len(),
        config.args[i].map == Some(token),
        supplied.dom().contains(config.args[i].key),
        supplied[config.args[i].key] == Some(value),
    ensures
        slot(config, supplied, interactive, i) == seq![token, value],
{
    law_slots(config, supplied, interactive, i);
    assert(tokens_for(config.args[i], supplied) =~= seq![token, value]);
}

/// Slots begin in the order of declaration.
pub proof fn lemma_slot_starts_ascend(
    config: ConfigurationView,
    supplied: Map<Seq<char>, Option<Seq<char>>>,
    interactive: bool,
    i: int,
    j: int,
)
    requires
        0 <= i <= j <= config.args.len(),
    ensures
        slot_start(config, supplied, interactive, i) <= slot_start(config, supplied, interactive, j),
    decreases j - i,
{
    if i < j {
        law_slots(config, supplied, interactive, j - 1);
        lemma_slot_starts_ascend(config, supplied, interactive, i, j - 1);
    }
}

/// The tokens of a descriptor that is declared earlier stand before the tokens
/// of one that is declared later: the slot of the earlier one ends no later
/// than the slot of the later one begins.
pub proof fn law_declaration_order(
    config: ConfigurationView,
    supplied: Map<Seq<char>, Option<Seq<char>>>,
    interactive: bool,
    i: int,
    j: int,
)
    requires
        0 <= i < j < config.args.len(),
    ensures
        slot_start(config, supplied, interactive, i + 1) <= slot_start(
            config,
            supplied,
            interactive,
            j,
        ),
        slot(config, supplied, interactive, i) == tokens_for(config.args[i], supplied),
        slot(config, supplied, interactive, j) == tokens_for(config.args[j], supplied),
{
    lemma_slot_starts_ascend(config, supplied, interactive, i + 1, j);
    law_slots(config, supplied, interactive, i);
    law_slots(config, supplied, interactive, j);
}

/// Without a terminal `humanize` plays no part: the outgoing argument vector
/// is that of the descriptors alone, whatever the configuration says of
/// `humanize`.
pub proof fn law_humanize_needs_terminal(
    config: ConfigurationView,
    supplied: Map<Seq<char>, Option<Seq<char>>>,
)
    ensures
        outgoing(config, supplied, false) == mapped_tokens(config.args, supplied),
{
    assert(outgoing(config, supplied, false) =~= mapped_tokens(config.args, supplied));
}

/// Without a terminal the outgoing argument vector does not hold the humanize
/// token, unless a descriptor contributes a token that equals it.
pub proof fn law_humanize_token_left_out(
    config: ConfigurationView,
    supplied: Map<Seq<char>, Option<Seq<char>>>,
    token: Seq<char>,
)
    requires
        config.humanize == Some(token),
        !mapped_tokens(config.args, supplied).contains(token),
    ensures
        !outgoing(config, supplied, false).contains(token),
{
    law_humanize_needs_terminal(config, supplied);
}

/// With a terminal the humanize token, where one is configured, stands first,
/// and the tokens of the descriptors follow it unchanged.
pub proof fn law_humanize_stands_first(
    config: ConfigurationView,
    supplied: Map<Seq<char>, Option<Seq<char>>>,
    token: Seq<char>,
)
    requires
        config.humanize == Some(token),
    ensures
        outgoing(config, supplied, true) == seq![token] + mapped_tokens(config.args, supplied),
        outgoing(config, supplied, true)[0] == token,
{
}

/// Where the `version` flag was supplied, the plan is to show the version,
/// whatever else was supplied and whatever the configuration holds.
pub proof fn law_version_decides(
    config: ConfigurationView,
    supplied: Map<Seq<char>, Option<Seq<char>>>,
    interactive: bool,
)
    requires
        supplied.dom().contains("version"@),
    ensures
        plan_of(config, supplied, interactive) == PlanView::ShowVersion,
{
}

/// `atty::is` on the standard output: whether it is attached to a terminal.
/// The answer depends on how the process was started, so nothing is claimed of
/// it.
#[verifier::external_body]
pub(crate) fn stdout_is_terminal() -> (interactive: bool) {
    atty::is(atty::Stream::Stdout)
}

/// Builds the outgoing argument vector.
///
/// `interactive` says whether the wrapper's standard output is attached to a
/// terminal.
pub fn translate(config: &Configuration, supplied: &MatchResult, interactive: bool) -> (out: Vec<
    String,
>)
    ensures
        texts(out@) == outgoing(config@, supplied@, interactive),
{
    let mut out: Vec<String> = Vec::new();
    if interactive {
        match &config.humanize {
            Some(token) => {
                out.push(token.clone());
            },
            None => {},
        }
    }
    assert(texts(out@) =~= humanize_tokens(config@, interactive));
    let mut i: usize = 0;
    assert(config@.args.take(0) =~= Seq::<DescriptorView>::empty());
    while i < config.args.len()
        invariant
            i <= config.args.len(),
            texts(out@) == humanize_tokens(config@, interactive) + mapped_tokens(
                config@.args.take(i as int),
                supplied@,
            ),
        decreases config.args.len() - i,
    {
        let d = &config.args[i];
        let ghost before = texts(out@);
        proof {
            assert(config@.args.take(i + 1).drop_last() =~= config@.args.take(i as int));
            assert(config@.args.take(i + 1).last() == d@);
        }
        if supplied.is_present(d.key.as_str()) {
            match &d.map {
                Some(token) => {
                    out.push(token.clone());
                },
                None => {},
            }
            assert(texts(out@) =~= before + optional_token(d@.map));
            match supplied.value_of(d.key.as_str()) {
                Some(value) => {
                    out.push(value.clone());
                },
                None => {},
            }
            assert(texts(out@) =~= before + tokens_for(d@, supplied@));
        }
        assert(texts(out@) =~= before + tokens_for(d@, supplied@));
        i += 1;
    }
    assert(config@.args.take(i as int) =~= config@.args);
    out
}

/// Decides what the wrapper does: show its version, or launch the wrapped
/// program with the translated arguments.
pub fn plan(config: &Configuration, supplied: &MatchResult, interactive: bool) -> (decided: Plan)
    ensures
        decided@ == plan_of(config@, supplied@, interactive),
{
    if supplied.is_present("version") {
        Plan::ShowVersion
    } else {
        Plan::Launch {
            executable: config.executable.clone(),
            arguments: translate(config, supplied, interactive),
        }
    }
}

/// Validates the document, collects what the argument parser matched, asks
/// whether the standard output is a terminal, and decides what the wrapper
/// does.
///
/// A document that is no configuration is refused with its error, whatever was
/// matched. Otherwise the plan is the one that the configuration and the
/// matched arguments give, for one of the two answers to the question whether
/// the output is a terminal.
pub fn prepare(doc: &Yaml, found: &ArgMatches) -> (prepared: Result<Plan, ConfigError>)
    ensures
        match prepared {
            Err(e) => configuration_of(node_of(*doc)) == Err::<ConfigurationView, _>(e),
            Ok(decided) => configuration_of(node_of(*doc)) matches Ok(config) && exists|
                interactive: bool,
            |
                decided@ == #[trigger] plan_of(
                    config,
                    matched(*found).restrict(declared_keys(config)),
                    interactive,
                ),
        },
{
    match Configuration::load(doc) {
        Err(e) => Err(e),
        Ok(config) => {
            let supplied = MatchResult::collect(&config, found);
            let interactive = stdout_is_terminal();
            let decided = plan(&config, &supplied, interactive);
            assert(decided@ == plan_of(config@, supplied@, interactive));
            Ok(decided)
        },
    }
}

} // verus!
