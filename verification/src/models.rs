//! Shape checks of exported classifier models.
//!
//! The trained models (Gaussian naive Bayes, linear models, decision trees,
//! random forests and gradient boosting) come as JSON exports. Before a
//! model is built from an export, its shape is checked: the model type, the
//! three classes (sell, hold, buy), the lengths of its rows and lists, the
//! child and feature indices of its tree nodes. Each check reports the first
//! problem it finds, in a fixed order, or the model's name when there is
//! none. The numbers themselves (floating point) are read and used elsewhere.
use vstd::prelude::*;

use vstd::string::StringExecFns;

verus! {

/// Number of classes every model predicts: sell, hold, buy.
pub const N_CLASSES: usize = 3;

/// Features of the canonical feature vector.
pub const N_CANONICAL_FEATURES: usize = 28;

/// Features of the market-only feature vector.
pub const N_MARKET_FEATURES: usize = 42;

/// Features of the full feature vector.
pub const N_FULL_FEATURES: usize = 55;

/// A part of a model export whose length is checked.
#[derive(Debug, Clone, Copy, PartialEq, Eq, Structural)]
pub enum ModelPart {
    /// Naive Bayes: the class log priors.
    ClassLogPrior,
    /// Naive Bayes: the per-class feature means.
    Theta,
    /// Naive Bayes: the per-class feature variances.
    Var,
    /// Linear model: the per-class weight rows.
    Weights,
    /// Linear model: the per-class biases.
    Biases,
    /// Gradient boosting: the initial class values.
    InitValue,
}

/// The first problem found in a model export.
#[derive(Debug, Clone, Copy, PartialEq, Eq, Structural)]
pub enum ShapeError {
    /// The export is of another kind of model.
    ModelType,
    /// The feature count is zero or above the full feature vector.
    FeatureCount { got: usize },
    /// The model does not have three classes.
    ClassCount { got: usize },
    /// A part has the wrong number of entries.
    PartLength { part: ModelPart, got: usize, expected: usize },
    /// A row of a part has the wrong number of entries.
    RowLength { part: ModelPart, row: usize, got: usize, expected: usize },
    /// Gradient boosting: the stage count differs from the estimator count.
    StageCount { n_estimators: usize, stages: usize },
    /// Gradient boosting: a stage does not hold one tree per class.
    StageTrees { stage: usize, got: usize, expected: usize },
    /// Gradient boosting: the learning rate is outside (0, 1].
    LearningRate,
    /// Random forest: the tree count differs from the estimator count.
    TreeCount { n_estimators: usize, trees: usize },
    /// Random forest: no trees.
    NoTrees,
    /// An internal node's left child is not a node of the tree.
    LeftChild { node: usize, child: i32 },
    /// An internal node's right child is not a node of the tree.
    RightChild { node: usize, child: i32 },
    /// An internal node splits on a feature the model does not have.
    FeatureIndex { node: usize, feature: i32 },
    /// A leaf does not hold one probability per class.
    LeafSize { node: usize, got: usize },
    /// A leaf holds no probabilities.
    LeafMissing { node: usize },
}

/// What the loader checks of a Gaussian naive Bayes export.
pub struct NbShape {
    pub model_type: String,
    pub model_name: String,
    pub n_classes: usize,
    pub n_features: usize,
    /// Number of class log priors.
    pub prior_len: usize,
    /// Length of each row of means.
    pub theta_lens: Vec<usize>,
    /// Length of each row of variances.
    pub var_lens: Vec<usize>,
}

/// What the loader checks of a linear model export.
pub struct LinearShape {
    pub model_type: String,
    pub model_name: String,
    pub n_classes: usize,
    pub n_features: usize,
    /// Length of each weight row.
    pub weight_lens: Vec<usize>,
    /// Number of biases.
    pub bias_len: usize,
}

/// What the loader checks of one tree node: its split feature (-1 for a
/// leaf), its children, and the number of probabilities a leaf holds.
#[derive(Debug, Clone, Copy, PartialEq, Eq, Structural)]
pub struct NodeShape {
    pub feature: i32,
    pub left: i32,
    pub right: i32,
    pub leaf_len: Option<usize>,
}

/// What the loader checks of a decision tree export.
pub struct DecisionTreeShape {
    pub model_type: String,
    pub n_features: usize,
    pub n_classes: usize,
    /// The node count the export declares.
    pub n_nodes: usize,
    pub nodes: Vec<NodeShape>,
}

/// What the loader checks of a random forest export.
pub struct ForestShape {
    pub model_type: String,
    pub n_features: usize,
    pub n_classes: usize,
    pub n_estimators: usize,
    /// Number of trees present.
    pub n_trees: usize,
}

/// What the loader checks of a gradient boosting export.
pub struct BoostedShape {
    pub model_type: String,
    pub n_features: usize,
    pub n_classes: usize,
    /// Number of initial class values.
    pub init_len: usize,
    pub n_estimators: usize,
    /// Number of trees in each stage.
    pub stage_lens: Vec<usize>,
    /// Whether the learning rate lies in (0, 1].
    pub learning_rate_ok: bool,
}

/// The outcome of a check, by view.
pub open spec fn outcome_view(r: Result<String, ShapeError>) -> Result<Seq<char>, ShapeError> {
    match r {
        Ok(s) => Ok(s@),
        Err(e) => Err(e),
    }
}

/// Whether a feature count is accepted: from one to the full vector.
pub open spec fn feature_count_ok(n: usize) -> bool {
    1 <= n <= N_FULL_FEATURES
}

/// The first mean or variance row, from class `c` on, whose length is not
/// `n` (means checked before variances within a class).
pub open spec fn nb_row_problem(theta: Seq<usize>, var: Seq<usize>, n: usize, c: int) -> Option<ShapeError>
    decreases 3 - c,
{
    if c >= 3 {
        None
    } else if theta[c] != n {
        Some(ShapeError::RowLength { part: ModelPart::Theta, row: c as usize, got: theta[c], expected: n })
    } else if var[c] != n {
        Some(ShapeError::RowLength { part: ModelPart::Var, row: c as usize, got: var[c], expected: n })
    } else {
        nb_row_problem(theta, var, n, c + 1)
    }
}

/// The verdict on a naive Bayes export: the first problem, or its name.
pub open spec fn nb_verdict(s: NbShape) -> Result<Seq<char>, ShapeError> {
    if s.model_type@ != "gaussian_nb"@ {
        Err(ShapeError::ModelType)
    } else if s.n_classes != 3 {
        Err(ShapeError::ClassCount { got: s.n_classes })
    } else if s.prior_len != 3 {
        Err(ShapeError::PartLength { part: ModelPart::ClassLogPrior, got: s.prior_len, expected: 3 })
    } else if s.theta_lens@.len() != 3 {
        Err(ShapeError::PartLength { part: ModelPart::Theta, got: s.theta_lens@.len() as usize, expected: 3 })
    } else if s.var_lens@.len() != 3 {
        Err(ShapeError::PartLength { part: ModelPart::Var, got: s.var_lens@.len() as usize, expected: 3 })
    } else {
        match nb_row_problem(s.theta_lens@, s.var_lens@, s.n_features, 0) {
            Some(e) => Err(e),
            None => Ok("GaussianNB_"@ + s.model_name@),
        }
    }
}

/// Whether a naive Bayes export has the expected shape.
pub open spec fn nb_shape_ok(s: NbShape) -> bool {
    nb_verdict(s) is Ok
}

/// A string equal to a literal, compared by content.
fn same_text(s: &String, lit: &str) -> (b: bool)
    ensures
        b == (s@ == lit@),
{
    let l: String = lit.to_owned();
    *s == l
}

/// Check a naive Bayes export: three classes, three priors, three rows of
/// means and of variances, each row one entry per feature. The name of an
/// accepted model is `GaussianNB_` followed by its model name.
pub fn check_gaussian_nb(s: &NbShape) -> (r: Result<String, ShapeError>)
    ensures
        outcome_view(r) == nb_verdict(*s),
        r is Ok <==> nb_shape_ok(*s),
{
    if !same_text(&s.model_type, "gaussian_nb") {
        return Err(ShapeError::ModelType);
    }
    if s.n_classes != 3 {
        return Err(ShapeError::ClassCount { got: s.n_classes });
    }
    if s.prior_len != 3 {
        return Err(ShapeError::PartLength { part: ModelPart::ClassLogPrior, got: s.prior_len, expected: 3 });
    }
    if s.theta_lens.len() != 3 {
        return Err(ShapeError::PartLength { part: ModelPart::Theta, got: s.theta_lens.len(), expected: 3 });
    }
    if s.var_lens.len() != 3 {
        return Err(ShapeError::PartLength { part: ModelPart::Var, got: s.var_lens.len(), expected: 3 });
    }
    let mut c: usize = 0;
    while c < 3
        invariant
            c <= 3,
            s.model_type@ == "gaussian_nb"@,
            s.n_classes == 3,
            s.prior_len == 3,
            s.theta_lens@.len() == 3,
            s.var_lens@.len() == 3,
            nb_row_problem(s.theta_lens@, s.var_lens@, s.n_features, 0) == nb_row_problem(
                s.theta_lens@,
                s.var_lens@,
                s.n_features,
                c as int,
            ),
        decreases 3 - c,
    {
        if s.theta_lens[c] != s.n_features {
            return Err(ShapeError::RowLength { part: ModelPart::Theta, row: c, got: s.theta_lens[c], expected: s.n_features });
        }
        if s.var_lens[c] != s.n_features {
            return Err(ShapeError::RowLength { part: ModelPart::Var, row: c, got: s.var_lens[c], expected: s.n_features });
        }
        c += 1;
    }
    let name = "GaussianNB_".to_owned().concat(s.model_name.as_str());
    Ok(name)
}

/// The first weight row, from row `i` on, whose length is not `n`.
pub open spec fn weight_row_problem(rows: Seq<usize>, n: usize, i: int) -> Option<ShapeError>
    decreases rows.len() - i,
{
    if i >= rows.len() {
        None
    } else if rows[i] != n {
        Some(ShapeError::RowLength { part: ModelPart::Weights, row: i as usize, got: rows[i], expected: n })
    } else {
        weight_row_problem(rows, n, i + 1)
    }
}

/// The verdict on a linear model export: the first problem, or its name,
/// prefixed `SvmLinear_` for a linear support vector machine and
/// `LinearModel_` otherwise.
pub open spec fn linear_verdict(s: LinearShape) -> Result<Seq<char>, ShapeError> {
    if s.model_type@ != "linear_model"@ && s.model_type@ != "svm_linear"@ {
        Err(ShapeError::ModelType)
    } else if s.n_classes != 3 {
        Err(ShapeError::ClassCount { got: s.n_classes })
    } else if s.weight_lens@.len() != 3 {
        Err(ShapeError::PartLength { part: ModelPart::Weights, got: s.weight_lens@.len() as usize, expected: 3 })
    } else {
        match weight_row_problem(s.weight_lens@, s.n_features, 0) {
            Some(e) => Err(e),
            None => if s.bias_len != 3 {
                Err(ShapeError::PartLength { part: ModelPart::Biases, got: s.bias_len, expected: 3 })
            } else if s.model_type@ == "svm_linear"@ {
                Ok("SvmLinear_"@ + s.model_name@)
            } else {
                Ok("LinearModel_"@ + s.model_name@)
            },
        }
    }
}

/// Check a linear model export: a linear model or linear support vector
/// machine with three classes, three weight rows of one entry per feature
/// and three biases.
pub fn check_linear(s: &LinearShape) -> (r: Result<String, ShapeError>)
    ensures
        outcome_view(r) == linear_verdict(*s),
{
    let is_svm = same_text(&s.model_type, "svm_linear");
    if !same_text(&s.model_type, "linear_model") && !is_svm {
        return Err(ShapeError::ModelType);
    }
    if s.n_classes != 3 {
        return Err(ShapeError::ClassCount { got: s.n_classes });
    }
    if s.weight_lens.len() != 3 {
        return Err(ShapeError::PartLength { part: ModelPart::Weights, got: s.weight_lens.len(), expected: 3 });
    }
    let mut i: usize = 0;
    while i < s.weight_lens.len()
        invariant
            i <= s.weight_lens@.len(),
            s.model_type@ == "linear_model"@ || s.model_type@ == "svm_linear"@,
            is_svm == (s.model_type@ == "svm_linear"@),
            s.n_classes == 3,
            s.weight_lens@.len() == 3,
            weight_row_problem(s.weight_lens@, s.n_features, 0) == weight_row_problem(s.weight_lens@, s.n_features, i as int),
        decreases s.weight_lens@.len() - i,
    {
        if s.weight_lens[i] != s.n_features {
            return Err(ShapeError::RowLength { part: ModelPart::Weights, row: i, got: s.weight_lens[i], expected: s.n_features });
        }
        i += 1;
    }
    if s.bias_len != 3 {
        return Err(ShapeError::PartLength { part: ModelPart::Biases, got: s.bias_len, expected: 3 });
    }
    let prefix = if is_svm { "SvmLinear_".to_owned() } else { "LinearModel_".to_owned() };
    Ok(prefix.concat(s.model_name.as_str()))
}

/// The problem of node `i`, if any: an internal node needs children that
/// are nodes of the tree and a split feature of the model; a leaf needs one
/// probability per class.
pub open spec fn node_problem(i: int, node: NodeShape, n_nodes: usize, n_features: usize) -> Option<ShapeError> {
    if node.feature != -1 {
        if node.left < 0 || node.left >= n_nodes {
            Some(ShapeError::LeftChild { node: i as usize, child: node.left })
        } else if node.right < 0 || node.right >= n_nodes {
            Some(ShapeError::RightChild { node: i as usize, child: node.right })
        } else if node.feature < 0 || node.feature >= n_features {
            Some(ShapeError::FeatureIndex { node: i as usize, feature: node.feature })
        } else {
            None
        }
    } else {
        match node.leaf_len {
            Some(l) => if l == 3 {
                None
            } else {
                Some(ShapeError::LeafSize { node: i as usize, got: l })
            },
            None => Some(ShapeError::LeafMissing { node: i as usize }),
        }
    }
}

/// The first problem among the nodes from index `i` on.
pub open spec fn nodes_problem(nodes: Seq<NodeShape>, n_nodes: usize, n_features: usize, i: int) -> Option<ShapeError>
    decreases nodes.len() - i,
{
    if i < 0 || i >= nodes.len() {
        None
    } else {
        match node_problem(i, nodes[i], n_nodes, n_features) {
            Some(e) => Some(e),
            None => nodes_problem(nodes, n_nodes, n_features, i + 1),
        }
    }
}

/// Check the nodes of a tree, in order, against the declared node count
/// and the model's feature count.
pub fn check_tree_nodes(n_features: usize, n_nodes: usize, nodes: &Vec<NodeShape>) -> (r: Result<(), ShapeError>)
    ensures
        r == (match nodes_problem(nodes@, n_nodes, n_features, 0) {
            Some(e) => Err(e),
            None => Ok(()),
        }),
{
    let mut i: usize = 0;
    while i < nodes.len()
        invariant
            i <= nodes@.len(),
            nodes_problem(nodes@, n_nodes, n_features, 0) == nodes_problem(nodes@, n_nodes, n_features, i as int),
        decreases nodes@.len() - i,
    {
        let node = nodes[i];
        if node.feature != -1 {
            if node.left < 0 || node.left as usize >= n_nodes {
                return Err(ShapeError::LeftChild { node: i, child: node.left });
            }
            if node.right < 0 || node.right as usize >= n_nodes {
                return Err(ShapeError::RightChild { node: i, child: node.right });
            }
            if node.feature < 0 || node.feature as usize >= n_features {
                return Err(ShapeError::FeatureIndex { node: i, feature: node.feature });
            }
        } else {
            match node.leaf_len {
                Some(l) => {
                    if l != 3 {
                        return Err(ShapeError::LeafSize { node: i, got: l });
                    }
                },
                None => {
                    return Err(ShapeError::LeafMissing { node: i });
                },
            }
        }
        i += 1;
    }
    Ok(())
}

/// The verdict on a decision tree export.
pub open spec fn tree_verdict(s: DecisionTreeShape) -> Result<(), ShapeError> {
    if s.model_type@ != "decision_tree"@ {
        Err(ShapeError::ModelType)
    } else if !feature_count_ok(s.n_features) {
        Err(ShapeError::FeatureCount { got: s.n_features })
    } else if s.n_classes != 3 {
        Err(ShapeError::ClassCount { got: s.n_classes })
    } else {
        match nodes_problem(s.nodes@, s.n_nodes, s.n_features, 0) {
            Some(e) => Err(e),
            None => Ok(()),
        }
    }
}

/// Check a decision tree export: its type, one to the full number of
/// features, three classes, then its nodes.
pub fn check_decision_tree(s: &DecisionTreeShape) -> (r: Result<(), ShapeError>)
    ensures
        r == tree_verdict(*s),
{
    if !same_text(&s.model_type, "decision_tree") {
        return Err(ShapeError::ModelType);
    }
    if s.n_features == 0 || s.n_features > N_FULL_FEATURES {
        return Err(ShapeError::FeatureCount { got: s.n_features });
    }
    if s.n_classes != 3 {
        return Err(ShapeError::ClassCount { got: s.n_classes });
    }
    check_tree_nodes(s.n_features, s.n_nodes, &s.nodes)
}

/// The verdict on a random forest export.
pub open spec fn forest_verdict(s: ForestShape) -> Result<(), ShapeError> {
    if s.model_type@ != "random_forest"@ {
        Err(ShapeError::ModelType)
    } else if !feature_count_ok(s.n_features) {
        Err(ShapeError::FeatureCount { got: s.n_features })
    } else if s.n_classes != 3 {
        Err(ShapeError::ClassCount { got: s.n_classes })
    } else if s.n_trees != s.n_estimators {
        Err(ShapeError::TreeCount { n_estimators: s.n_estimators, trees: s.n_trees })
    } else if s.n_trees == 0 {
        Err(ShapeError::NoTrees)
    } else {
        Ok(())
    }
}

/// Check a random forest export: its type, feature and class counts, as
/// many trees as estimators, and at least one tree.
pub fn check_random_forest(s: &ForestShape) -> (r: Result<(), ShapeError>)
    ensures
        r == forest_verdict(*s),
{
    if !same_text(&s.model_type, "random_forest") {
        return Err(ShapeError::ModelType);
    }
    if s.n_features == 0 || s.n_features > N_FULL_FEATURES {
        return Err(ShapeError::FeatureCount { got: s.n_features });
    }
    if s.n_classes != 3 {
        return Err(ShapeError::ClassCount { got: s.n_classes });
    }
    if s.n_trees != s.n_estimators {
        return Err(ShapeError::TreeCount { n_estimators: s.n_estimators, trees: s.n_trees });
    }
    if s.n_trees == 0 {
        return Err(ShapeError::NoTrees);
    }
    Ok(())
}

/// The first stage, from stage `i` on, without one tree per class.
pub open spec fn stage_problem(stages: Seq<usize>, n_classes: usize, i: int) -> Option<ShapeError>
    decreases stages.len() - i,
{
    if i < 0 || i >= stages.len() {
        None
    } else if stages[i] != n_classes {
        Some(ShapeError::StageTrees { stage: i as usize, got: stages[i], expected: n_classes })
    } else {
        stage_problem(stages, n_classes, i + 1)
    }
}

/// The verdict on a gradient boosting export.
pub open spec fn boosted_verdict(s: BoostedShape) -> Result<(), ShapeError> {
    if s.model_type@ != "gradient_boosted"@ {
        Err(ShapeError::ModelType)
    } else if !feature_count_ok(s.n_features) {
        Err(ShapeError::FeatureCount { got: s.n_features })
    } else if s.n_classes != 3 {
        Err(ShapeError::ClassCount { got: s.n_classes })
    } else if s.init_len != s.n_classes {
        Err(ShapeError::PartLength { part: ModelPart::InitValue, got: s.init_len, expected: s.n_classes })
    } else if s.stage_lens@.len() != s.n_estimators {
        Err(ShapeError::StageCount { n_estimators: s.n_estimators, stages: s.stage_lens@.len() as usize })
    } else {
        match stage_problem(s.stage_lens@, s.n_classes, 0) {
            Some(e) => Err(e),
            None => if !s.learning_rate_ok {
                Err(ShapeError::LearningRate)
            } else {
                Ok(())
            },
        }
    }
}

/// Check a gradient boosting export: its type, feature and class counts,
/// one initial value per class, as many stages as estimators, one tree per
/// class in each stage, and a learning rate in (0, 1].
pub fn check_gradient_boosted(s: &BoostedShape) -> (r: Result<(), ShapeError>)
    ensures
        r == boosted_verdict(*s),
{
    if !same_text(&s.model_type, "gradient_boosted") {
        return Err(ShapeError::ModelType);
    }
    if s.n_features == 0 || s.n_features > N_FULL_FEATURES {
        return Err(ShapeError::FeatureCount { got: s.n_features });
    }
    if s.n_classes != 3 {
        return Err(ShapeError::ClassCount { got: s.n_classes });
    }
    if s.init_len != s.n_classes {
        return Err(ShapeError::PartLength { part: ModelPart::InitValue, got: s.init_len, expected: s.n_classes });
    }
    if s.stage_lens.len() != s.n_estimators {
        return Err(ShapeError::StageCount { n_estimators: s.n_estimators, stages: s.stage_lens.len() });
    }
    let mut i: usize = 0;
    while i < s.stage_lens.len()
        invariant
            i <= s.stage_lens@.len(),
            s.model_type@ == "gradient_boosted"@,
            feature_count_ok(s.n_features),
            s.n_classes == 3,
            s.init_len == s.n_classes,
            s.stage_lens@.len() == s.n_estimators,
            stage_problem(s.stage_lens@, s.n_classes, 0) == stage_problem(s.stage_lens@, s.n_classes, i as int),
        decreases s.stage_lens@.len() - i,
    {
        if s.stage_lens[i] != s.n_classes {
            return Err(ShapeError::StageTrees { stage: i, got: s.stage_lens[i], expected: s.n_classes });
        }
        i += 1;
    }
    if !s.learning_rate_ok {
        return Err(ShapeError::LearningRate);
    }
    Ok(())
}

/// Whether a model with `n_features` features reads one of the standard
/// feature vectors (canonical, market-only or full) as it stands.
pub open spec fn standard_feature_count(n_features: usize) -> bool {
    n_features == N_CANONICAL_FEATURES || n_features == N_MARKET_FEATURES || n_features == N_FULL_FEATURES
}

/// Whether `k` is the last position of `name` among `full`.
pub open spec fn last_position_of(full: Seq<String>, name: Seq<char>, k: int) -> bool {
    &&& 0 <= k < full.len()
    &&& full[k]@ == name
    &&& forall|m: int| k < m < full.len() ==> (#[trigger] full[m])@ != name
}

/// Whether every name of `names` is among `full`.
pub open spec fn all_known(names: Seq<String>, full: Seq<String>) -> bool {
    forall|i: int| #![trigger names[i]] 0 <= i < names.len() ==> exists|k: int| 0 <= k < full.len() && full[k]@ == names[i]@
}

/// The positions in the full feature vector of a model's features: none
/// when the model reads a standard vector as it stands; otherwise, for each
/// model feature in order, the position of the feature of that name among
/// `full_names` (the last one, should a name repeat). Every model feature
/// must be among `full_names`.
pub fn compute_feature_indices(model_feature_names: &Vec<String>, n_features: usize, full_names: &Vec<String>) -> (r: Option<Vec<usize>>)
    requires
        all_known(model_feature_names@, full_names@),
    ensures
        standard_feature_count(n_features) ==> r is None,
        !standard_feature_count(n_features) ==> (r matches Some(v) && v@.len() == model_feature_names@.len()
            && forall|i: int| 0 <= i < v@.len() ==> last_position_of(full_names@, model_feature_names@[i]@, #[trigger] v@[i] as int)),
{
    if n_features == N_CANONICAL_FEATURES || n_features == N_MARKET_FEATURES || n_features == N_FULL_FEATURES {
        return None;
    }
    let mut out: Vec<usize> = Vec::new();
    let mut i: usize = 0;
    while i < model_feature_names.len()
        invariant
            i <= model_feature_names@.len(),
            out@.len() == i,
            forall|j: int| 0 <= j < i ==> last_position_of(full_names@, model_feature_names@[j]@, #[trigger] out@[j] as int),
            all_known(model_feature_names@, full_names@),
        decreases model_feature_names@.len() - i,
    {
        let name = &model_feature_names[i];
        let ghost target = name@;
        let n = full_names.len();
        let mut k: usize = n;
        let mut found: usize = n;
        while k > 0
            invariant
                k <= n,
                n == full_names@.len(),
                found <= n,
                target == model_feature_names@[i as int]@,
                name@ == target,
                found == n ==> forall|m: int| k <= m < n ==> (#[trigger] full_names@[m])@ != target,
                found < n ==> k == 0 && last_position_of(full_names@, target, found as int),
            decreases k,
        {
            if full_names[k - 1] == *name {
                found = k - 1;
                k = 0;
            } else {
                k -= 1;
            }
        }
        proof {
            assert(0 <= i < model_feature_names@.len());
            let _ = model_feature_names@[i as int];
            if found == n {
                let m = choose|m: int| 0 <= m < full_names@.len() && full_names@[m]@ == model_feature_names@[i as int]@;
                assert(full_names@[m]@ != target);
            }
        }
        out.push(found);
        i += 1;
    }
    Some(out)
}

} // verus!
