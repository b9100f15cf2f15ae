use agents::models::{
    check_decision_tree, check_gaussian_nb, check_gradient_boosted, check_linear, check_random_forest,
    check_tree_nodes, compute_feature_indices, BoostedShape, DecisionTreeShape, ForestShape, LinearShape,
    ModelPart, NbShape, NodeShape, ShapeError,
};

fn nb(model_type: &str, theta: Vec<usize>, var: Vec<usize>) -> NbShape {
    NbShape {
        model_type: model_type.to_string(),
        model_name: "small".to_string(),
        n_classes: 3,
        n_features: 4,
        prior_len: 3,
        theta_lens: theta,
        var_lens: var,
    }
}

// An accepted naive Bayes export is named after its model name.
#[test]
fn gaussian_nb_accepted() {
    let r = check_gaussian_nb(&nb("gaussian_nb", vec![4, 4, 4], vec![4, 4, 4]));
    assert_eq!(r, Ok("GaussianNB_small".to_string()));
}

// Each problem of a naive Bayes export is reported, the first one found.
#[test]
fn gaussian_nb_rejected() {
    assert_eq!(check_gaussian_nb(&nb("random_forest", vec![4, 4, 4], vec![4, 4, 4])), Err(ShapeError::ModelType));
    let mut s = nb("gaussian_nb", vec![4, 4, 4], vec![4, 4, 4]);
    s.n_classes = 2;
    assert_eq!(check_gaussian_nb(&s), Err(ShapeError::ClassCount { got: 2 }));
    let mut s = nb("gaussian_nb", vec![4, 4, 4], vec![4, 4, 4]);
    s.prior_len = 2;
    assert_eq!(check_gaussian_nb(&s), Err(ShapeError::PartLength { part: ModelPart::ClassLogPrior, got: 2, expected: 3 }));
    assert_eq!(
        check_gaussian_nb(&nb("gaussian_nb", vec![4, 4], vec![4, 4, 4])),
        Err(ShapeError::PartLength { part: ModelPart::Theta, got: 2, expected: 3 })
    );
    assert_eq!(
        check_gaussian_nb(&nb("gaussian_nb", vec![4, 4, 4], vec![4, 3, 4])),
        Err(ShapeError::RowLength { part: ModelPart::Var, row: 1, got: 3, expected: 4 })
    );
    assert_eq!(
        check_gaussian_nb(&nb("gaussian_nb", vec![4, 4, 5], vec![4, 3, 4])),
        Err(ShapeError::RowLength { part: ModelPart::Var, row: 1, got: 3, expected: 4 })
    );
}

// Linear models are named by kind; a short weight row is reported.
#[test]
fn linear_checks() {
    let s = LinearShape {
        model_type: "svm_linear".to_string(),
        model_name: "m".to_string(),
        n_classes: 3,
        n_features: 2,
        weight_lens: vec![2, 2, 2],
        bias_len: 3,
    };
    assert_eq!(check_linear(&s), Ok("SvmLinear_m".to_string()));
    let s = LinearShape { model_type: "linear_model".to_string(), ..s };
    assert_eq!(check_linear(&s), Ok("LinearModel_m".to_string()));
    let s = LinearShape { weight_lens: vec![2, 1, 2], ..s };
    assert_eq!(check_linear(&s), Err(ShapeError::RowLength { part: ModelPart::Weights, row: 1, got: 1, expected: 2 }));
    let s = LinearShape { weight_lens: vec![2, 2, 2], bias_len: 2, ..s };
    assert_eq!(check_linear(&s), Err(ShapeError::PartLength { part: ModelPart::Biases, got: 2, expected: 3 }));
}

fn leaf() -> NodeShape {
    NodeShape { feature: -1, left: -1, right: -1, leaf_len: Some(3) }
}

// Tree nodes need children inside the tree, a known feature, and three leaf probabilities.
#[test]
fn tree_node_checks() {
    let split = NodeShape { feature: 1, left: 1, right: 2, leaf_len: None };
    assert_eq!(check_tree_nodes(2, 3, &vec![split, leaf(), leaf()]), Ok(()));
    let bad_left = NodeShape { left: 3, ..split };
    assert_eq!(check_tree_nodes(2, 3, &vec![bad_left, leaf(), leaf()]), Err(ShapeError::LeftChild { node: 0, child: 3 }));
    let bad_right = NodeShape { right: -2, ..split };
    assert_eq!(check_tree_nodes(2, 3, &vec![bad_right, leaf(), leaf()]), Err(ShapeError::RightChild { node: 0, child: -2 }));
    let bad_feature = NodeShape { feature: 2, ..split };
    assert_eq!(check_tree_nodes(2, 3, &vec![bad_feature, leaf(), leaf()]), Err(ShapeError::FeatureIndex { node: 0, feature: 2 }));
    let short_leaf = NodeShape { leaf_len: Some(2), ..leaf() };
    assert_eq!(check_tree_nodes(2, 3, &vec![split, leaf(), short_leaf]), Err(ShapeError::LeafSize { node: 2, got: 2 }));
    let no_values = NodeShape { leaf_len: None, ..leaf() };
    assert_eq!(check_tree_nodes(2, 3, &vec![split, no_values, leaf()]), Err(ShapeError::LeafMissing { node: 1 }));
}

// A decision tree needs one to the full number of features and three classes.
#[test]
fn decision_tree_checks() {
    let s = DecisionTreeShape { model_type: "decision_tree".to_string(), n_features: 2, n_classes: 3, n_nodes: 1, nodes: vec![leaf()] };
    assert_eq!(check_decision_tree(&s), Ok(()));
    let s = DecisionTreeShape { n_features: 0, ..s };
    assert_eq!(check_decision_tree(&s), Err(ShapeError::FeatureCount { got: 0 }));
    let s = DecisionTreeShape { n_features: 56, ..s };
    assert_eq!(check_decision_tree(&s), Err(ShapeError::FeatureCount { got: 56 }));
    let s = DecisionTreeShape { n_features: 55, n_classes: 2, ..s };
    assert_eq!(check_decision_tree(&s), Err(ShapeError::ClassCount { got: 2 }));
}

// A forest needs as many trees as estimators, and at least one.
#[test]
fn random_forest_checks() {
    let s = ForestShape { model_type: "random_forest".to_string(), n_features: 5, n_classes: 3, n_estimators: 2, n_trees: 2 };
    assert_eq!(check_random_forest(&s), Ok(()));
    let s = ForestShape { n_trees: 1, ..s };
    assert_eq!(check_random_forest(&s), Err(ShapeError::TreeCount { n_estimators: 2, trees: 1 }));
    let s = ForestShape { n_trees: 0, n_estimators: 0, ..s };
    assert_eq!(check_random_forest(&s), Err(ShapeError::NoTrees));
}

// Gradient boosting: one initial value and one tree per class in every stage.
#[test]
fn gradient_boosted_checks() {
    let s = BoostedShape {
        model_type: "gradient_boosted".to_string(),
        n_features: 5,
        n_classes: 3,
        init_len: 3,
        n_estimators: 2,
        stage_lens: vec![3, 3],
        learning_rate_ok: true,
    };
    assert_eq!(check_gradient_boosted(&s), Ok(()));
    let s = BoostedShape { stage_lens: vec![3, 2], ..s };
    assert_eq!(check_gradient_boosted(&s), Err(ShapeError::StageTrees { stage: 1, got: 2, expected: 3 }));
    let s = BoostedShape { stage_lens: vec![3], ..s };
    assert_eq!(check_gradient_boosted(&s), Err(ShapeError::StageCount { n_estimators: 2, stages: 1 }));
    let s = BoostedShape { stage_lens: vec![3, 3], init_len: 2, ..s };
    assert_eq!(check_gradient_boosted(&s), Err(ShapeError::PartLength { part: ModelPart::InitValue, got: 2, expected: 3 }));
    let s = BoostedShape { init_len: 3, learning_rate_ok: false, ..s };
    assert_eq!(check_gradient_boosted(&s), Err(ShapeError::LearningRate));
}

// Standard feature counts need no remapping; a subset maps each name to its position.
#[test]
fn feature_indices() {
    let full: Vec<String> = vec!["a".to_string(), "b".to_string(), "c".to_string()];
    assert_eq!(compute_feature_indices(&vec![], 28, &full), None);
    assert_eq!(compute_feature_indices(&vec![], 42, &full), None);
    assert_eq!(compute_feature_indices(&vec![], 55, &full), None);
    let names = vec!["c".to_string(), "a".to_string()];
    assert_eq!(compute_feature_indices(&names, 2, &full), Some(vec![2, 0]));
}
