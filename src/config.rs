use vstd::prelude::*;

verus! {

/// One named context of a kubeconfig: the cluster and the user it binds.
pub struct NamedContext {
    pub name: String,
    pub cluster: String,
    pub user: Option<String>,
}

/// What the resolver reads of a kubeconfig: its contexts, in file order,
/// and the name of its current context, if it has one.
pub struct Kubeconfig {
    pub contexts: Vec<NamedContext>,
    pub current_context: Option<String>,
}

/// The context that was picked, with the cluster and user it names.
pub struct ContextSelection {
    pub context: String,
    pub cluster: String,
    pub user: Option<String>,
}

impl View for ContextSelection {
    type V = (Seq<char>, Seq<char>, Option<Seq<char>>);

    open spec fn view(&self) -> (Seq<char>, Seq<char>, Option<Seq<char>>) {
        (self.context@, self.cluster@, opt_chars(self.user))
    }
}

/// The characters of an optional string.
pub open spec fn opt_chars(o: Option<String>) -> Option<Seq<char>> {
    match o {
        Some(s) => Some(s@),
        None => None,
    }
}

/// The name being looked for: the override if there is one, else the
/// kubeconfig's current context.
pub open spec fn sought_name(kc: Kubeconfig, over: Option<Seq<char>>) -> Option<Seq<char>> {
    match over {
        Some(n) => Some(n),
        None => opt_chars(kc.current_context),
    }
}

/// The first index at or after `start` whose context is named `name`.
pub open spec fn first_named_from(ctxs: Seq<NamedContext>, name: Seq<char>, start: int) -> Option<int>
    decreases ctxs.len() - start,
{
    if start < 0 || start >= ctxs.len() {
        None
    } else if ctxs[start].name@ == name {
        Some(start)
    } else {
        first_named_from(ctxs, name, start + 1)
    }
}

/// The first index whose context is named `name`.
pub open spec fn first_named(ctxs: Seq<NamedContext>, name: Seq<char>) -> Option<int> {
    first_named_from(ctxs, name, 0)
}

/// The selection that resolving `over` against `kc` yields.
pub open spec fn resolve(kc: Kubeconfig, over: Option<Seq<char>>) -> Option<(Seq<char>, Seq<char>, Option<Seq<char>>)> {
    match sought_name(kc, over) {
        None => None,
        Some(n) => match first_named(kc.contexts@, n) {
            None => None,
            Some(i) => Some((n, kc.contexts@[i].cluster@, opt_chars(kc.contexts@[i].user))),
        },
    }
}

/// Picks the context to use: the first one named like the override, or,
/// without an override, like the current context. `None` when nothing is
/// sought or no context carries the name.
pub fn config_options_for_context(kc: &Kubeconfig, context: &Option<String>) -> (r: Option<ContextSelection>)
    ensures
        opt_selection_view(r) == resolve(*kc, opt_chars(*context)),
{
    let sought: Option<String> = match context {
        Some(c) => Some(c.clone()),
        None => match &kc.current_context {
            Some(c) => Some(c.clone()),
            None => None,
        },
    };
    assert(opt_chars(sought) == sought_name(*kc, opt_chars(*context)));
    match sought {
        None => None,
        Some(cc) => {
            let ghost n = cc@;
            let mut i: usize = 0;
            while i < kc.contexts.len()
                invariant
                    n == cc@,
                    sought_name(*kc, opt_chars(*context)) == Some(n),
                    0 <= i <= kc.contexts@.len(),
                    first_named(kc.contexts@, n) == first_named_from(kc.contexts@, n, i as int),
                decreases kc.contexts@.len() - i,
            {
                let nc = &kc.contexts[i];
                if nc.name == cc {
                    assert(first_named_from(kc.contexts@, n, i as int) == Some(i as int));
                    let sel = ContextSelection {
                        context: nc.name.clone(),
                        cluster: nc.cluster.clone(),
                        user: match &nc.user {
                            Some(u) => Some(u.clone()),
                            None => None,
                        },
                    };
                    return Some(sel);
                }
                i = i + 1;
            }
            None
        },
    }
}

/// The view of an optional selection.
pub open spec fn opt_selection_view(o: Option<ContextSelection>) -> Option<(Seq<char>, Seq<char>, Option<Seq<char>>)> {
    match o {
        Some(s) => Some(s@),
        None => None,
    }
}

/// The names of all contexts, in kubeconfig order.
pub fn context_names(kc: &Kubeconfig) -> (r: Vec<String>)
    ensures
        r@.len() == kc.contexts@.len(),
        forall|i: int| 0 <= i < r@.len() ==> #[trigger] r@[i]@ == kc.contexts@[i].name@,
{
    let mut names: Vec<String> = Vec::new();
    let mut i: usize = 0;
    while i < kc.contexts.len()
        invariant
            0 <= i <= kc.contexts@.len(),
            names@.len() == i,
            forall|j: int| 0 <= j < i ==> #[trigger] names@[j]@ == kc.contexts@[j].name@,
        decreases kc.contexts@.len() - i,
    {
        names.push(kc.contexts[i].name.clone());
        i = i + 1;
    }
    names
}

/// The namespace to query: the one asked for, else the client's default.
pub fn namespace_for(requested: &Option<String>, default_ns: &str) -> (r: String)
    ensures
        r@ == match opt_chars(*requested) {
            Some(n) => n,
            None => default_ns@,
        },
{
    match requested {
        Some(n) => n.clone(),
        None => String::from_str(default_ns),
    }
}

/// An override that names a context selects the first context of that name,
/// whatever the current context is.
pub proof fn lemma_override_wins(kc: Kubeconfig, x: Seq<char>, i: int)
    requires
        0 <= i < kc.contexts@.len(),
        kc.contexts@[i].name@ == x,
        forall|j: int| 0 <= j < i ==> kc.contexts@[j].name@ != x,
    ensures
        resolve(kc, Some(x)) == Some((x, kc.contexts@[i].cluster@, opt_chars(kc.contexts@[i].user))),
        forall|other: Option<String>|
            resolve(Kubeconfig { contexts: kc.contexts, current_context: other }, Some(x))
                == #[trigger] resolve(kc, Some(x)),
{
    lemma_first_named_is(kc.contexts@, x, i, 0);
}

/// Without an override the current context is sought; without either,
/// nothing is resolved.
pub proof fn lemma_current_context_fallback(kc: Kubeconfig)
    ensures
        kc.current_context is None ==> resolve(kc, None) is None,
        kc.current_context matches Some(c) ==> resolve(kc, None) == resolve(kc, Some(c@)),
{
}

/// When no context carries the sought name, nothing is resolved.
pub proof fn lemma_no_match_resolves_none(kc: Kubeconfig, over: Option<Seq<char>>)
    requires
        sought_name(kc, over) matches Some(n) && forall|j: int|
            0 <= j < kc.contexts@.len() ==> #[trigger] kc.contexts@[j].name@ != n,
    ensures
        resolve(kc, over) is None,
{
    let n = sought_name(kc, over)->Some_0;
    lemma_first_named_none(kc.contexts@, n, 0);
}

proof fn lemma_first_named_is(ctxs: Seq<NamedContext>, x: Seq<char>, i: int, start: int)
    requires
        0 <= start <= i < ctxs.len(),
        ctxs[i].name@ == x,
        forall|j: int| 0 <= j < i ==> ctxs[j].name@ != x,
    ensures
        first_named_from(ctxs, x, start) == Some(i),
    decreases i - start,
{
    if start < i {
        lemma_first_named_is(ctxs, x, i, start + 1);
    }
}

proof fn lemma_first_named_none(ctxs: Seq<NamedContext>, x: Seq<char>, start: int)
    requires
        0 <= start,
        forall|j: int| 0 <= j < ctxs.len() ==> #[trigger] ctxs[j].name@ != x,
    ensures
        first_named_from(ctxs, x, start) is None,
    decreases ctxs.len() - start,
{
    if start < ctxs.len() {
        lemma_first_named_none(ctxs, x, start + 1);
    }
}

} // verus!
