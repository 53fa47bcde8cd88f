//! The adoption guide: fixed rules and recipes for adopting Weave, with the
//! project's own next steps when they are known.
use vstd::prelude::*;
use crate::text::{chars_of, extend_str, own, string_of};

verus! {

/// Structured adoption guide for agents and humans.
#[derive(Debug)]
pub struct AdoptionGuide {
    /// Short title.
    pub title: String,
    /// Non-negotiable rules (security / semantics).
    pub rules: Vec<String>,
    /// Happy-path command recipe.
    pub recipe: Vec<String>,
    /// Branch-change recipe after Weave is adopted.
    pub after_git_checkout: Vec<String>,
    /// Cleanup recipe.
    pub cleanup: Vec<String>,
    /// Project-specific next steps (may be empty).
    pub project_next_steps: Vec<String>,
    /// Unsupported / refused cases.
    pub will_not: Vec<String>,
}

/// The guide's title.
pub open spec fn guide_title() -> Seq<char> {
    "Weave agent/human quickstart"@
}

/// The guide's rules.
pub open spec fn guide_rules() -> Seq<Seq<char>> {
    seq![
        "Weave materializes node_modules from package-lock.json; it does not replace npm."@,
        "Never edit package.json / package-lock.json via Weave."@,
        "Plain `weave switch` never runs install scripts and never opens script network."@,
        "Do not set execution.enabled or use --with-exec unless a human reviewed policy."@,
        "Pass --owner only when you manage agent sessions; Weave never auto-detects agents."@,
        "Prefer --json on every command you parse."@,
    ]
}

/// The adoption recipe.
pub open spec fn guide_recipe() -> Seq<Seq<char>> {
    seq![
        "weave guide --json          # this document as JSON"@,
        "weave init --json           # idempotent; creates .weave/ only"@,
        "weave doctor --json         # fail closed on unsupported / blocked projects"@,
        "weave switch --json         # materialize + activate (no scripts)"@,
        "weave status --json         # confirm active env + next_steps"@,
    ]
}

/// Steps after a branch change.
pub open spec fn guide_after_checkout() -> Seq<Seq<char>> {
    seq![
        "git checkout <branch>       # Weave does not run git for you"@,
        "weave switch --json         # rebuild env for the new lockfile"@,
        "weave status --json"@,
    ]
}

/// Cleanup steps.
pub open spec fn guide_cleanup() -> Seq<Seq<char>> {
    seq![
        "weave recover --json        # clear leftover candidate / dangling active"@,
        "weave env prune --owner <id> --json   # optional agent metadata cleanup"@,
        "weave gc --json             # reclaim unreachable CAS artifacts"@,
    ]
}

/// What Weave refuses to do.
pub open spec fn guide_will_not() -> Seq<Seq<char>> {
    seq![
        "Silently replace npm/pnpm/yarn"@,
        "Auto-enable execution or networking"@,
        "Auto-detect or trust AI agents"@,
        "Convert Yarn/pnpm/Bun lockfiles"@,
        "Invent SRI, URLs, or declared outputs"@,
    ]
}

/// The guide, with the project's next steps when the caller found any.
pub fn adoption_guide(project_next_steps: Vec<String>) -> (g: AdoptionGuide)
    ensures
        g.title@ == guide_title(),
        g.rules.deep_view() == guide_rules(),
        g.recipe.deep_view() == guide_recipe(),
        g.after_git_checkout.deep_view() == guide_after_checkout(),
        g.cleanup.deep_view() == guide_cleanup(),
        g.project_next_steps.deep_view() == project_next_steps.deep_view(),
        g.will_not.deep_view() == guide_will_not(),
{
    let rules = vec![
        own("Weave materializes node_modules from package-lock.json; it does not replace npm."),
        own("Never edit package.json / package-lock.json via Weave."),
        own("Plain `weave switch` never runs install scripts and never opens script network."),
        own("Do not set execution.enabled or use --with-exec unless a human reviewed policy."),
        own("Pass --owner only when you manage agent sessions; Weave never auto-detects agents."),
        own("Prefer --json on every command you parse."),
    ];
    let recipe = vec![
        own("weave guide --json          # this document as JSON"),
        own("weave init --json           # idempotent; creates .weave/ only"),
        own("weave doctor --json         # fail closed on unsupported / blocked projects"),
        own("weave switch --json         # materialize + activate (no scripts)"),
        own("weave status --json         # confirm active env + next_steps"),
    ];
    let after = vec![
        own("git checkout <branch>       # Weave does not run git for you"),
        own("weave switch --json         # rebuild env for the new lockfile"),
        own("weave status --json"),
    ];
    let cleanup = vec![
        own("weave recover --json        # clear leftover candidate / dangling active"),
        own("weave env prune --owner <id> --json   # optional agent metadata cleanup"),
        own("weave gc --json             # reclaim unreachable CAS artifacts"),
    ];
    let will_not = vec![
        own("Silently replace npm/pnpm/yarn"),
        own("Auto-enable execution or networking"),
        own("Auto-detect or trust AI agents"),
        own("Convert Yarn/pnpm/Bun lockfiles"),
        own("Invent SRI, URLs, or declared outputs"),
    ];
    assert(rules.deep_view() =~= guide_rules());
    assert(recipe.deep_view() =~= guide_recipe());
    assert(after.deep_view() =~= guide_after_checkout());
    assert(cleanup.deep_view() =~= guide_cleanup());
    assert(will_not.deep_view() =~= guide_will_not());
    AdoptionGuide {
        title: own("Weave agent/human quickstart"),
        rules,
        recipe,
        after_git_checkout: after,
        cleanup,
        project_next_steps,
        will_not,
    }
}

/// One line per item: `prefix`, the item, a newline.
pub open spec fn item_lines(prefix: Seq<char>, items: Seq<Seq<char>>) -> Seq<char>
    decreases items.len(),
{
    if items.len() == 0 {
        Seq::empty()
    } else {
        item_lines(prefix, items.drop_last()) + prefix + items.last() + "\n"@
    }
}

/// The rendered guide.
pub open spec fn guide_text(g: AdoptionGuide) -> Seq<char> {
    "# "@ + g.title@ + "\n\n"@ + "## Rules\n"@ + item_lines("- "@, g.rules.deep_view())
        + "\n## Adopt (existing npm repo)\n"@ + item_lines("  "@, g.recipe.deep_view())
        + "\n## After `git checkout`\n"@ + item_lines("  "@, g.after_git_checkout.deep_view())
        + "\n## Cleanup / recovery\n"@ + item_lines("  "@, g.cleanup.deep_view()) + (if g.project_next_steps@.len() == 0 {
        Seq::empty()
    } else {
        "\n## This project\n"@ + item_lines("  "@, g.project_next_steps.deep_view())
    }) + "\n## Weave will NOT\n"@ + item_lines("- "@, g.will_not.deep_view()) + "\n"@
}

/// Append one line per item.
fn push_item_lines(out: &mut Vec<char>, prefix: &str, items: &Vec<String>)
    ensures
        final(out)@ == old(out)@ + item_lines(prefix@, items.deep_view()),
{
    let ghost start = out@;
    let ghost l = items.deep_view();
    let mut i: usize = 0;
    assert(l.take(0) =~= Seq::<Seq<char>>::empty());
    assert(out@ =~= start + item_lines(prefix@, l.take(0)));
    while i < items.len()
        invariant
            i <= l.len(),
            l == items.deep_view(),
            out@ == start + item_lines(prefix@, l.take(i as int)),
        decreases l.len() - i,
    {
        assert(l.take(i + 1).drop_last() =~= l.take(i as int));
        assert(l.take(i + 1).last() == items@[i as int]@);
        extend_str(out, prefix);
        extend_str(out, items[i].as_str());
        extend_str(out, "\n");
        assert(out@ =~= start + item_lines(prefix@, l.take(i + 1)));
        i += 1;
    }
    assert(l.take(l.len() as int) =~= l);
}

/// Human-readable rendering of the guide.
pub fn render_adoption_guide(guide: &AdoptionGuide) -> (r: String)
    ensures
        r@ == guide_text(*guide),
{
    let mut o = chars_of("# ");
    extend_str(&mut o, guide.title.as_str());
    extend_str(&mut o, "\n\n");
    extend_str(&mut o, "## Rules\n");
    push_item_lines(&mut o, "- ", &guide.rules);
    extend_str(&mut o, "\n## Adopt (existing npm repo)\n");
    push_item_lines(&mut o, "  ", &guide.recipe);
    extend_str(&mut o, "\n## After `git checkout`\n");
    push_item_lines(&mut o, "  ", &guide.after_git_checkout);
    extend_str(&mut o, "\n## Cleanup / recovery\n");
    push_item_lines(&mut o, "  ", &guide.cleanup);
    let ghost mid = o@;
    if guide.project_next_steps.len() > 0 {
        extend_str(&mut o, "\n## This project\n");
        push_item_lines(&mut o, "  ", &guide.project_next_steps);
    } else {
        assert(o@ =~= mid + Seq::<char>::empty());
    }
    extend_str(&mut o, "\n## Weave will NOT\n");
    push_item_lines(&mut o, "- ", &guide.will_not);
    extend_str(&mut o, "\n");
    let r = string_of(&o);
    assert(r@ =~= guide_text(*guide));
    r
}

} // verus!
