use vstd::prelude::*;

use crate::text::{copy_text, join_texts, join_with, same_text, views};

verus! {

/// How quickly a model answers, fastest first; `Unrated` stands for a label
/// that the registry gives but this library does not know.
#[derive(PartialEq, Eq, Structural, Debug, Clone, Copy)]
pub enum SpeedClass {
    VeryFast,
    Fast,
    Moderate,
    Slow,
    Unrated,
}

pub open spec fn speed_of(label: Seq<char>) -> SpeedClass {
    if label == "very-fast"@ {
        SpeedClass::VeryFast
    } else if label == "fast"@ {
        SpeedClass::Fast
    } else if label == "moderate"@ {
        SpeedClass::Moderate
    } else if label == "slow"@ {
        SpeedClass::Slow
    } else {
        SpeedClass::Unrated
    }
}

pub open spec fn is_slow(c: SpeedClass) -> bool {
    c == SpeedClass::Moderate || c == SpeedClass::Slow
}

pub open spec fn is_quick(c: SpeedClass) -> bool {
    c == SpeedClass::VeryFast || c == SpeedClass::Fast
}

impl SpeedClass {
    /// Reads a speed label of the registry document.
    pub fn from_label(label: &str) -> (r: SpeedClass)
        ensures
            r == speed_of(label@),
    {
        if same_text(label, "very-fast") {
            SpeedClass::VeryFast
        } else if same_text(label, "fast") {
            SpeedClass::Fast
        } else if same_text(label, "moderate") {
            SpeedClass::Moderate
        } else if same_text(label, "slow") {
            SpeedClass::Slow
        } else {
            SpeedClass::Unrated
        }
    }

    /// Whether a multi-file batch on a model of this speed is worth
    /// switching away from.
    pub fn is_slow(&self) -> (r: bool)
        ensures
            r == is_slow(*self),
    {
        *self == SpeedClass::Moderate || *self == SpeedClass::Slow
    }

    pub fn is_quick(&self) -> (r: bool)
        ensures
            r == is_quick(*self),
    {
        *self == SpeedClass::VeryFast || *self == SpeedClass::Fast
    }
}

/// One model that the registry describes.
pub struct ModelInfo {
    pub name: String,
    /// Approximate size on disk, in tenths of a gigabyte.
    pub size_tenths_gb: u64,
    pub parameters: String,
    pub speed: SpeedClass,
}

/// The known models, the model for each task label, and the default model.
pub struct ModelRegistry {
    pub models: Vec<ModelInfo>,
    pub task_mappings: Vec<(String, String)>,
    pub default_model: String,
}

/// Where the model of a review may be named, highest priority first.
pub enum ModelPriority {
    CliFlag(String),
    Task(String),
    EnvVar(String),
    Default,
}

/// The sources that may name a model: an explicit override, a task label,
/// and the value of the environment.
pub struct ModelRequest {
    pub model: Option<String>,
    pub task: Option<String>,
    pub env_model: Option<String>,
}

/// Why no model could be chosen.
#[derive(Debug)]
pub enum SelectError {
    /// The registry was needed and could not be loaded; the text says why.
    Registry(String),
    /// The task label is not in the registry; `known` lists those that are.
    UnknownTask { task: String, known: Vec<String> },
}

/// What a `SelectError` says.
pub enum SelectFailure {
    Registry(Seq<char>),
    UnknownTask(Seq<char>, Seq<Seq<char>>),
}

impl View for SelectError {
    type V = SelectFailure;

    open spec fn view(&self) -> SelectFailure {
        match self {
            SelectError::Registry(m) => SelectFailure::Registry(m@),
            SelectError::UnknownTask { task, known } => SelectFailure::UnknownTask(
                task@,
                views(known@),
            ),
        }
    }
}

pub open spec fn outcome(r: Result<String, SelectError>) -> Result<Seq<char>, SelectFailure> {
    match r {
        Ok(m) => Ok(m@),
        Err(e) => Err(e@),
    }
}

/// Whether no task label is mapped twice, as in the registry document,
/// where the mappings form a JSON object.
pub open spec fn labels_unique(m: Seq<(String, String)>) -> bool {
    forall|i: int, j: int|
        0 <= i < m.len() && 0 <= j < m.len() && i != j ==> #[trigger] m[i].0@ != #[trigger] m[j].0@
}

/// The model that the first mapping of `task` names; with unique labels
/// (`labels_unique`) that is the one mapping of `task`.
pub open spec fn task_lookup(m: Seq<(String, String)>, task: Seq<char>) -> Option<Seq<char>>
    decreases m.len(),
{
    if m.len() == 0 {
        None
    } else if m[0].0@ == task {
        Some(m[0].1@)
    } else {
        task_lookup(m.drop_first(), task)
    }
}

pub open spec fn task_labels(m: Seq<(String, String)>) -> Seq<Seq<char>> {
    m.map_values(|p: (String, String)| p.0@)
}

/// The first model of the registry with the given name.
pub open spec fn find_named(models: Seq<ModelInfo>, name: Seq<char>) -> Option<ModelInfo>
    decreases models.len(),
{
    if models.len() == 0 {
        None
    } else if models[0].name@ == name {
        Some(models[0])
    } else {
        find_named(models.drop_first(), name)
    }
}

/// The first model of the registry rated fast or very fast.
pub open spec fn first_quick(models: Seq<ModelInfo>) -> Option<ModelInfo>
    decreases models.len(),
{
    if models.len() == 0 {
        None
    } else if is_quick(models[0].speed) {
        Some(models[0])
    } else {
        first_quick(models.drop_first())
    }
}

pub open spec fn task_choice(task: Seq<char>, reg: Result<ModelRegistry, String>) -> Result<
    Seq<char>,
    SelectFailure,
> {
    match reg {
        Err(e) => Err(SelectFailure::Registry(e@)),
        Ok(r) => match task_lookup(r.task_mappings@, task) {
            Some(m) => Ok(m),
            None => Err(SelectFailure::UnknownTask(task, task_labels(r.task_mappings@))),
        },
    }
}

pub open spec fn default_choice(reg: Result<ModelRegistry, String>) -> Result<
    Seq<char>,
    SelectFailure,
> {
    match reg {
        Err(e) => Err(SelectFailure::Registry(e@)),
        Ok(r) => Ok(r.default_model@),
    }
}

/// The model that a priority names.
pub open spec fn resolved(p: ModelPriority, reg: Result<ModelRegistry, String>) -> Result<
    Seq<char>,
    SelectFailure,
> {
    match p {
        ModelPriority::CliFlag(m) => Ok(m@),
        ModelPriority::EnvVar(m) => Ok(m@),
        ModelPriority::Task(t) => task_choice(t@, reg),
        ModelPriority::Default => default_choice(reg),
    }
}

/// The model chosen for a request: the first source present wins.
pub open spec fn model_choice(req: ModelRequest, reg: Result<ModelRegistry, String>) -> Result<
    Seq<char>,
    SelectFailure,
> {
    match req.model {
        Some(m) => Ok(m@),
        None => match req.task {
            Some(t) => task_choice(t@, reg),
            None => match req.env_model {
                Some(e) => Ok(e@),
                None => default_choice(reg),
            },
        },
    }
}

/// Finds the model of a task label.
fn lookup_task(m: &Vec<(String, String)>, task: &str) -> (r: Option<String>)
    ensures
        match r {
            Some(v) => task_lookup(m@, task@) == Some(v@),
            None => task_lookup(m@, task@) is None,
        },
{
    let mut i: usize = 0;
    assert(m@.subrange(0, m@.len() as int) =~= m@);
    while i < m.len()
        invariant
            i <= m@.len(),
            task_lookup(m@, task@) == task_lookup(m@.subrange(i as int, m@.len() as int), task@),
        decreases m@.len() - i,
    {
        let ghost rest = m@.subrange(i as int, m@.len() as int);
        assert(rest.drop_first() =~= m@.subrange(i + 1, m@.len() as int));
        assert(rest[0] == m@[i as int]);
        if same_text(m[i].0.as_str(), task) {
            return Some(copy_text(&m[i].1));
        }
        i = i + 1;
    }
    None
}

/// The task labels that the registry maps, in its order.
fn known_tasks(m: &Vec<(String, String)>) -> (r: Vec<String>)
    ensures
        views(r@) == task_labels(m@),
{
    let mut out: Vec<String> = Vec::new();
    let mut i: usize = 0;
    while i < m.len()
        invariant
            i <= m@.len(),
            out@.len() == i,
            forall|k: int| 0 <= k < i ==> #[trigger] out@[k]@ == m@[k].0@,
        decreases m@.len() - i,
    {
        out.push(copy_text(&m[i].0));
        i = i + 1;
    }
    assert(views(out@) =~= task_labels(m@));
    out
}

/// The position of the first model with the given name.
fn find_model(models: &Vec<ModelInfo>, name: &str) -> (r: Option<usize>)
    ensures
        match r {
            Some(i) => i < models@.len() && find_named(models@, name@) == Some(models@[i as int]),
            None => find_named(models@, name@) is None,
        },
{
    let mut i: usize = 0;
    assert(models@.subrange(0, models@.len() as int) =~= models@);
    while i < models.len()
        invariant
            i <= models@.len(),
            find_named(models@, name@) == find_named(
                models@.subrange(i as int, models@.len() as int),
                name@,
            ),
        decreases models@.len() - i,
    {
        let ghost rest = models@.subrange(i as int, models@.len() as int);
        assert(rest.drop_first() =~= models@.subrange(i + 1, models@.len() as int));
        assert(rest[0] == models@[i as int]);
        if same_text(models[i].name.as_str(), name) {
            return Some(i);
        }
        i = i + 1;
    }
    None
}

/// The position of the first fast or very fast model.
fn find_quick(models: &Vec<ModelInfo>) -> (r: Option<usize>)
    ensures
        match r {
            Some(i) => i < models@.len() && first_quick(models@) == Some(models@[i as int]),
            None => first_quick(models@) is None,
        },
{
    let mut i: usize = 0;
    assert(models@.subrange(0, models@.len() as int) =~= models@);
    while i < models.len()
        invariant
            i <= models@.len(),
            first_quick(models@) == first_quick(models@.subrange(i as int, models@.len() as int)),
        decreases models@.len() - i,
    {
        let ghost rest = models@.subrange(i as int, models@.len() as int);
        assert(rest.drop_first() =~= models@.subrange(i + 1, models@.len() as int));
        assert(rest[0] == models@[i as int]);
        if models[i].speed.is_quick() {
            return Some(i);
        }
        i = i + 1;
    }
    None
}

/// The highest-priority source that the request holds.
pub fn determine_model_priority(req: &ModelRequest) -> (r: ModelPriority)
    ensures
        match req.model {
            Some(m) => r matches ModelPriority::CliFlag(x) && x@ == m@,
            None => match req.task {
                Some(t) => r matches ModelPriority::Task(x) && x@ == t@,
                None => match req.env_model {
                    Some(e) => r matches ModelPriority::EnvVar(x) && x@ == e@,
                    None => r matches ModelPriority::Default,
                },
            },
        },
{
    match &req.model {
        Some(m) => ModelPriority::CliFlag(copy_text(m)),
        None => match &req.task {
            Some(t) => ModelPriority::Task(copy_text(t)),
            None => match &req.env_model {
                Some(e) => ModelPriority::EnvVar(copy_text(e)),
                None => ModelPriority::Default,
            },
        },
    }
}

fn registry_failure(reg: &Result<ModelRegistry, String>) -> (r: SelectError)
    requires
        reg is Err,
    ensures
        r@ == SelectFailure::Registry(reg->Err_0@),
{
    match reg {
        Ok(_) => SelectError::Registry(String::new()),
        Err(e) => SelectError::Registry(copy_text(e)),
    }
}

/// The model that a priority names; a task label and the default are read
/// from the registry, the other sources are taken as they are.
pub fn resolve_model_priority(
    priority: &ModelPriority,
    registry: &Result<ModelRegistry, String>,
) -> (r: Result<String, SelectError>)
    ensures
        outcome(r) == resolved(*priority, *registry),
{
    match priority {
        ModelPriority::CliFlag(m) => Ok(copy_text(m)),
        ModelPriority::EnvVar(m) => Ok(copy_text(m)),
        ModelPriority::Task(t) => match registry {
            Err(_) => Err(registry_failure(registry)),
            Ok(reg) => match lookup_task(&reg.task_mappings, t.as_str()) {
                Some(v) => Ok(v),
                None => Err(
                    SelectError::UnknownTask {
                        task: copy_text(t),
                        known: known_tasks(&reg.task_mappings),
                    },
                ),
            },
        },
        ModelPriority::Default => match registry {
            Err(_) => Err(registry_failure(registry)),
            Ok(reg) => Ok(copy_text(&reg.default_model)),
        },
    }
}

/// The model for a request: explicit override, then task label, then the
/// environment's value, then the registry's default.
pub fn select_model(req: &ModelRequest, registry: &Result<ModelRegistry, String>) -> (r: Result<
    String,
    SelectError,
>)
    ensures
        outcome(r) == model_choice(*req, *registry),
{
    let priority = determine_model_priority(req);
    resolve_model_priority(&priority, registry)
}

} // verus!

verus! {

/// A non-fatal remark that selection makes about the model of a batch.
pub enum Notice {
    /// A slow model was named explicitly for a batch of several files.
    SlowExplicit {
        model: String,
        speed: SpeedClass,
        parameters: String,
        size_tenths_gb: u64,
        file_count: usize,
    },
    /// A slow model was replaced by a quicker one for a batch of several files.
    Substituted { original: String, replacement: String, file_count: usize },
}

/// What a `Notice` says.
pub enum NoticeView {
    SlowExplicit(Seq<char>, SpeedClass, Seq<char>, u64, nat),
    Substituted(Seq<char>, Seq<char>, nat),
}

impl View for Notice {
    type V = NoticeView;

    open spec fn view(&self) -> NoticeView {
        match self {
            Notice::SlowExplicit { model, speed, parameters, size_tenths_gb, file_count } =>
                NoticeView::SlowExplicit(
                model@,
                *speed,
                parameters@,
                *size_tenths_gb,
                *file_count as nat,
            ),
            Notice::Substituted { original, replacement, file_count } => NoticeView::Substituted(
                original@,
                replacement@,
                *file_count as nat,
            ),
        }
    }
}

/// The model chosen for one file of a batch, and what selection has to say
/// about it.
pub struct Selection {
    pub model: String,
    pub notice: Option<Notice>,
}

pub open spec fn notice_view(n: Option<Notice>) -> Option<NoticeView> {
    match n {
        Some(x) => Some(x@),
        None => None,
    }
}

pub open spec fn selection_outcome(r: Result<Selection, SelectError>) -> Result<
    (Seq<char>, Option<NoticeView>),
    SelectFailure,
> {
    match r {
        Ok(s) => Ok((s.model@, notice_view(s.notice))),
        Err(e) => Err(e@),
    }
}

/// Selection for a batch of `n` files. With more than one file a model that
/// the registry rates moderate or slow gives way to the registry's first
/// fast or very fast model, unless it was named explicitly, in which case
/// it stays and a notice says that it is slow. An explicitly named model
/// needs no registry: without one its speed is unknown and nothing is said.
pub open spec fn adaptive_outcome(
    req: ModelRequest,
    reg: Result<ModelRegistry, String>,
    n: nat,
) -> Result<(Seq<char>, Option<NoticeView>), SelectFailure> {
    match model_choice(req, reg) {
        Err(e) => Err(e),
        Ok(m) => if n <= 1 {
            Ok((m, None))
        } else {
            match reg {
                Err(e) => if req.model is Some {
                    Ok((m, None))
                } else {
                    Err(SelectFailure::Registry(e@))
                },
                Ok(r) => match find_named(r.models@, m) {
                    None => Ok((m, None)),
                    Some(info) => if !is_slow(info.speed) {
                        Ok((m, None))
                    } else if req.model is Some {
                        Ok(
                            (
                                m,
                                Some(
                                    NoticeView::SlowExplicit(
                                        m,
                                        info.speed,
                                        info.parameters@,
                                        info.size_tenths_gb,
                                        n,
                                    ),
                                ),
                            ),
                        )
                    } else {
                        match first_quick(r.models@) {
                            Some(q) => Ok(
                                (q.name@, Some(NoticeView::Substituted(m, q.name@, n))),
                            ),
                            None => Ok((m, None)),
                        }
                    },
                },
            }
        },
    }
}

/// Chooses the model for one file of a batch of `file_count` files.
pub fn select_model_adaptive(
    req: &ModelRequest,
    registry: &Result<ModelRegistry, String>,
    file_count: usize,
) -> (r: Result<Selection, SelectError>)
    ensures
        selection_outcome(r) == adaptive_outcome(*req, *registry, file_count as nat),
{
    let chosen = match select_model(req, registry) {
        Ok(m) => m,
        Err(e) => {
            return Err(e);
        },
    };
    if file_count <= 1 {
        return Ok(Selection { model: chosen, notice: None });
    }
    let reg = match registry {
        Ok(reg) => reg,
        Err(_) => {
            if req.model.is_some() {
                return Ok(Selection { model: chosen, notice: None });
            }
            return Err(registry_failure(registry));
        },
    };
    let idx = match find_model(&reg.models, chosen.as_str()) {
        Some(i) => i,
        None => {
            return Ok(Selection { model: chosen, notice: None });
        },
    };
    let info = &reg.models[idx];
    if !info.speed.is_slow() {
        return Ok(Selection { model: chosen, notice: None });
    }
    if req.model.is_some() {
        let notice = Notice::SlowExplicit {
            model: copy_text(&chosen),
            speed: info.speed,
            parameters: copy_text(&info.parameters),
            size_tenths_gb: info.size_tenths_gb,
            file_count,
        };
        return Ok(Selection { model: chosen, notice: Some(notice) });
    }
    match find_quick(&reg.models) {
        Some(q) => {
            let replacement = copy_text(&reg.models[q].name);
            let notice = Notice::Substituted {
                original: chosen,
                replacement: copy_text(&reg.models[q].name),
                file_count,
            };
            Ok(Selection { model: replacement, notice: Some(notice) })
        },
        None => Ok(Selection { model: chosen, notice: None }),
    }
}

/// With unique labels a task is mapped to a model exactly when the lookup
/// finds that model.
pub proof fn lemma_unique_lookup(m: Seq<(String, String)>, task: Seq<char>, model: Seq<char>)
    requires
        labels_unique(m),
    ensures
        task_lookup(m, task) == Some(model) <==> exists|i: int|
            0 <= i < m.len() && #[trigger] m[i].0@ == task && m[i].1@ == model,
    decreases m.len(),
{
    if m.len() > 0 {
        let t = m.drop_first();
        assert forall|i: int, j: int|
            0 <= i < t.len() && 0 <= j < t.len() && i != j implies #[trigger] t[i].0@
            != #[trigger] t[j].0@ by {
            assert(t[i] == m[i + 1] && t[j] == m[j + 1]);
        }
        lemma_unique_lookup(t, task, model);
        if m[0].0@ == task {
            if exists|i: int| 0 <= i < m.len() && #[trigger] m[i].0@ == task && m[i].1@ == model {
                let i = choose|i: int| 0 <= i < m.len() && #[trigger] m[i].0@ == task && m[i].1@ == model;
                if i != 0 {
                    assert(m[i].0@ != m[0].0@);
                }
            }
        } else {
            if exists|i: int| 0 <= i < m.len() && #[trigger] m[i].0@ == task && m[i].1@ == model {
                let i = choose|i: int| 0 <= i < m.len() && #[trigger] m[i].0@ == task && m[i].1@ == model;
                assert(i != 0);
                assert(t[i - 1] == m[i]);
            }
            if exists|i: int| 0 <= i < t.len() && #[trigger] t[i].0@ == task && t[i].1@ == model {
                let i = choose|i: int| 0 <= i < t.len() && #[trigger] t[i].0@ == task && t[i].1@ == model;
                assert(m[i + 1] == t[i]);
            }
        }
    }
}

/// The order of the sources: an explicit override decides alone; without
/// one a task label decides, whatever the environment holds; without either
/// the environment's value decides; with none of them the registry's
/// default does.
pub proof fn lemma_source_priority(req: ModelRequest, reg: Result<ModelRegistry, String>)
    ensures
        req.model is Some ==> model_choice(req, reg) == Ok::<Seq<char>, SelectFailure>(
            req.model->0@,
        ),
        req.model is None && req.task is Some ==> model_choice(req, reg) == task_choice(
            req.task->0@,
            reg,
        ),
        req.model is None && req.task is None && req.env_model is Some ==> model_choice(req, reg)
            == Ok::<Seq<char>, SelectFailure>(req.env_model->0@),
        req.model is None && req.task is None && req.env_model is None ==> model_choice(req, reg)
            == default_choice(reg),
        req.model is None && req.task is None && req.env_model is None && reg is Ok ==>
            model_choice(req, reg) == Ok::<Seq<char>, SelectFailure>(reg->Ok_0.default_model@),
{
}

/// A higher source, when present, makes every lower one irrelevant: two
/// requests that agree on the sources down to the first one present choose
/// the same model.
pub proof fn lemma_lower_sources_ignored(
    a: ModelRequest,
    b: ModelRequest,
    reg: Result<ModelRegistry, String>,
)
    requires
        match a.model {
            Some(m) => b.model matches Some(x) && x@ == m@,
            None => b.model is None && match a.task {
                Some(t) => b.task matches Some(x) && x@ == t@,
                None => b.task is None && match a.env_model {
                    Some(e) => b.env_model matches Some(x) && x@ == e@,
                    None => b.env_model is None,
                },
            },
        },
    ensures
        model_choice(a, reg) == model_choice(b, reg),
{
}

/// Selection for a batch never replaces an explicitly named model, and
/// never replaces any model when the batch holds a single file.
pub proof fn lemma_adaptive_keeps_choice(
    req: ModelRequest,
    reg: Result<ModelRegistry, String>,
    n: nat,
)
    ensures
        n <= 1 ==> adaptive_outcome(req, reg, n) == match model_choice(req, reg) {
            Ok(m) => Ok((m, None::<NoticeView>)),
            Err(e) => Err(e),
        },
        req.model is Some ==> (adaptive_outcome(req, reg, n) matches Ok((m, notice)) && m
            == req.model->0@ && !(notice matches Some(NoticeView::Substituted(_, _, _)))),
{
}

impl SelectError {
    /// The message that reports the failure.
    pub fn message(&self) -> (r: String)
        ensures
            match self {
                SelectError::Registry(m) => r@ == m@,
                SelectError::UnknownTask { task, known } => r@ == "Unknown task type: '"@
                    + task@ + "'. Available tasks: "@ + join_with(views(known@), ", "@),
            },
    {
        match self {
            SelectError::Registry(m) => copy_text(m),
            SelectError::UnknownTask { task, known } => {
                let mut out = String::from_str("Unknown task type: '");
                out.append(task.as_str());
                out.append("'. Available tasks: ");
                let list = join_texts(known, ", ");
                out.append(list.as_str());
                out
            },
        }
    }
}

} // verus!
