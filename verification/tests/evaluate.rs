use sheet_template::eval::{chain_has, int_op, sum_of};
use sheet_template::{
    Constraint, EvalError, EvalMetaStatus, Expr, InfixOp, Metadata, MetadataStart, OpKind,
    Template, Value,
};

fn num(value: i64) -> Expr {
    Expr::Literal(Value::Integer(value))
}

fn text(value: &str) -> Expr {
    Expr::Literal(Value::String(value.to_owned()))
}

fn infix(lhs: Expr, rhs: Expr, kind: OpKind) -> Expr {
    Expr::InfixOp(Box::new(InfixOp { lhs, rhs, kind }))
}

fn leaf_with(template: &mut Template, name: &str, expr: Expr) -> usize {
    let id = template.add_leaf_to(name, 0, false).unwrap().id;
    template.set_leaf_expr(id, expr).unwrap();
    id
}

#[test]
fn literal_evaluates_to_itself() {
    for n in [0, 1, -1, 53, i64::MAX, i64::MIN] {
        let mut template = Template::new();
        let id = leaf_with(&mut template, "n", num(n));

        assert_eq!(template.eval_leaf(id), Ok(Value::Integer(n)));
    }
    let mut template = Template::new();
    let id = leaf_with(&mut template, "s", text("hello"));
    assert_eq!(template.eval_leaf(id), Ok(Value::String("hello".to_owned())));
    let list = Value::List(vec![num(1), Expr::Reference(9)]);
    let id = leaf_with(&mut template, "l", Expr::Literal(list.clone()));
    assert_eq!(template.eval_leaf(id), Ok(list));
}

#[test]
fn arithmetic_on_literals() {
    let template = Template::new();
    let cases = [
        (OpKind::Add, 53, 47, 100),
        (OpKind::Add, -5, 3, -2),
        (OpKind::Sub, 20, 10, 10),
        (OpKind::Sub, 3, 10, -7),
        (OpKind::Mul, 6, -7, -42),
        (OpKind::Pow, 3, 4, 12),
        (OpKind::Div, 10, 2, 5),
        (OpKind::Div, 7, 2, 3),
        (OpKind::Div, -7, 2, -3),
        (OpKind::Div, 7, -2, -3),
        (OpKind::Div, -7, -2, 3),
        (OpKind::Div, 0, -2, 0),
        (OpKind::Div, 1, 2, 0),
        (OpKind::Div, -1, 2, 0),
    ];

    for (kind, a, b, expected) in cases {
        assert_eq!(template.eval_expr(&infix(num(a), num(b), kind)), Ok(Value::Integer(expected)));
        assert_eq!(
            InfixOp { lhs: num(a), rhs: num(b), kind }.eval(&template),
            Ok(Value::Integer(expected))
        );
        assert_eq!(int_op(kind, a, b), Some(expected));
    }
}

#[test]
fn arithmetic_wraps_around() {
    assert_eq!(int_op(OpKind::Add, i64::MAX, 1), Some(i64::MIN));
    assert_eq!(int_op(OpKind::Sub, i64::MIN, 1), Some(i64::MAX));
    assert_eq!(int_op(OpKind::Mul, i64::MAX, 2), Some(-2));
    assert_eq!(int_op(OpKind::Pow, i64::MIN, -1), Some(i64::MIN));
    assert_eq!(int_op(OpKind::Div, i64::MIN, -1), Some(i64::MIN));
    assert_eq!(int_op(OpKind::Div, i64::MIN, 1), Some(i64::MIN));
    assert_eq!(int_op(OpKind::Div, i64::MAX, -1), Some(-i64::MAX));
    assert_eq!(sum_of(&vec![i64::MAX, 1]), i64::MIN);
    assert_eq!(sum_of(&vec![i64::MAX, 5, i64::MIN, -4]), 0);
}

#[test]
fn division_by_zero_and_neg_have_no_value() {
    let template = Template::new();

    assert_eq!(int_op(OpKind::Div, 5, 0), None);
    assert_eq!(int_op(OpKind::Div, 0, 0), None);
    assert_eq!(int_op(OpKind::Neg, 5, 3), None);
    assert_eq!(template.eval_expr(&infix(num(5), num(0), OpKind::Div)), Err(EvalError::InvalidType));
    assert_eq!(template.eval_expr(&infix(num(5), num(3), OpKind::Neg)), Err(EvalError::InvalidType));
    assert_eq!(
        template.eval_expr(&infix(Expr::Reference(40), num(3), OpKind::Neg)),
        Err(EvalError::InvalidType)
    );
}

#[test]
fn operands_must_be_integers() {
    let template = Template::new();

    for kind in [OpKind::Add, OpKind::Sub, OpKind::Mul, OpKind::Div, OpKind::Pow] {
        assert_eq!(template.eval_expr(&infix(text("a"), num(1), kind)), Err(EvalError::InvalidType));
        assert_eq!(template.eval_expr(&infix(num(1), text("a"), kind)), Err(EvalError::InvalidType));
        assert_eq!(
            template.eval_expr(&infix(num(1), Expr::Literal(Value::List(vec![])), kind)),
            Err(EvalError::InvalidType)
        );
    }
    assert_eq!(
        template.eval_expr(&infix(Expr::Reference(7), Expr::Reference(8), OpKind::Add)),
        Err(EvalError::MissingDependency(7))
    );
    assert_eq!(
        template.eval_expr(&infix(text("a"), Expr::Reference(8), OpKind::Add)),
        Err(EvalError::MissingDependency(8))
    );
}

#[test]
fn reference_cycle_is_refused() {
    let mut template = Template::new();
    let a = template.add_leaf_to("a", 0, false).unwrap().id;
    let b = template.add_leaf_to("b", 0, false).unwrap().id;
    template.set_leaf_expr(a, Expr::Reference(b)).unwrap();
    template.set_leaf_expr(b, Expr::Reference(a)).unwrap();

    assert_eq!(template.eval_leaf(a), Err(EvalError::InfiniteRecursion(a)));
    assert_eq!(template.eval_leaf(b), Err(EvalError::InfiniteRecursion(b)));
    assert_eq!(template.eval_expr(&Expr::Reference(a)), Err(EvalError::InfiniteRecursion(a)));
    assert!(!template.get_leaf_by_id(a).unwrap().cache_valid);
    assert!(!template.get_leaf_by_id(b).unwrap().cache_valid);
}

#[test]
fn self_reference_and_cycles_through_operands_are_refused() {
    let mut template = Template::new();
    let a = template.add_leaf_to("a", 0, false).unwrap().id;
    let b = template.add_leaf_to("b", 0, false).unwrap().id;
    let c = template.add_leaf_to("c", 0, false).unwrap().id;
    template.set_leaf_expr(a, Expr::Reference(a)).unwrap();
    assert_eq!(template.eval_leaf(a), Err(EvalError::InfiniteRecursion(a)));

    template.set_leaf_expr(a, infix(num(1), Expr::Reference(b), OpKind::Add)).unwrap();
    template.set_leaf_expr(b, infix(Expr::Reference(c), num(2), OpKind::Mul)).unwrap();
    template.set_leaf_expr(c, infix(num(3), Expr::Reference(a), OpKind::Sub)).unwrap();
    assert_eq!(template.eval_leaf(a), Err(EvalError::InfiniteRecursion(a)));
    assert_eq!(template.eval_leaf(b), Err(EvalError::InfiniteRecursion(b)));
    assert_eq!(template.eval_leaf(c), Err(EvalError::InfiniteRecursion(c)));
    assert_eq!(
        InfixOp { lhs: num(1), rhs: Expr::Reference(b), kind: OpKind::Add }.eval(&template),
        Err(EvalError::InfiniteRecursion(b))
    );
}

#[test]
fn cycle_through_a_concat_meta_node_is_refused() {
    let mut template = Template::new();
    let a = template.add_leaf_to("a", 0, false).unwrap().id;
    let joined = template.add_meta_to("joined", a, MetadataStart::Concat).unwrap().id;
    template.set_meta_data(joined, Metadata::Concat(vec![text("x"), Expr::Reference(a)])).unwrap();
    template.set_leaf_expr(a, Expr::Reference(joined)).unwrap();

    assert_eq!(template.eval_leaf(a), Err(EvalError::InfiniteRecursion(a)));
    assert_eq!(template.eval_leaf(joined), Err(EvalError::InfiniteRecursion(joined)));
}

#[test]
fn shared_dependency_is_no_cycle() {
    let mut template = Template::new();
    let base = leaf_with(&mut template, "base", num(21));
    let twice = leaf_with(
        &mut template,
        "twice",
        infix(Expr::Reference(base), Expr::Reference(base), OpKind::Add),
    );

    assert_eq!(template.eval_leaf(twice), Ok(Value::Integer(42)));
}

#[test]
fn end_to_end_ability_modifier() {
    let mut template = Template::new();
    let scores = template.add_group_to("ability_scores", 0).unwrap().id;
    let score = template.add_leaf_to("strength", scores, false).unwrap().id;
    template.set_leaf_value(score, Value::Integer(20)).unwrap();
    let abilities = template.add_group_to("abilities", 0).unwrap().id;
    let modifier = template.add_leaf_to("strength", abilities, false).unwrap().id;
    let source = template.get_node_from("ability_scores.strength", 0).unwrap();
    template
        .set_leaf_expr(
            modifier,
            infix(infix(Expr::Reference(source), num(10), OpKind::Sub), num(2), OpKind::Div),
        )
        .unwrap();

    let target = template.get_node_from("abilities.strength", 0).unwrap();
    assert_eq!(target, modifier);
    assert_eq!(template.eval_leaf(target), Ok(Value::Integer(5)));
}

#[test]
fn every_node_on_the_way_is_cached() {
    let mut template = Template::new();
    let base = leaf_with(&mut template, "base", num(8));
    let middle = leaf_with(&mut template, "middle", infix(Expr::Reference(base), num(2), OpKind::Mul));
    let total = template.add_meta_to("total", base, MetadataStart::Sum).unwrap().id;
    template.set_meta_data(total, Metadata::Sum(vec![1, 2, 3])).unwrap();
    let top = leaf_with(
        &mut template,
        "top",
        infix(Expr::Reference(middle), Expr::Reference(total), OpKind::Add),
    );

    assert_eq!(template.eval_leaf(top), Ok(Value::Integer(22)));
    for (id, expected) in [(base, 8), (middle, 16), (top, 22)] {
        let leaf = template.get_leaf_by_id(id).unwrap();
        assert!(leaf.cache_valid);
        assert_eq!(leaf.cached, Some(Value::Integer(expected)));
    }
    let meta = template.get_meta_by_id(total).unwrap();
    assert!(meta.cache_valid);
    assert_eq!(meta.cached, Some(Value::Integer(6)));
}

#[test]
fn failed_evaluation_caches_nothing() {
    let mut template = Template::new();
    let base = leaf_with(&mut template, "base", num(8));
    let top = leaf_with(
        &mut template,
        "top",
        infix(Expr::Reference(base), Expr::Reference(77), OpKind::Add),
    );
    let before = format!("{:?}", template);

    assert_eq!(template.eval_leaf(top), Err(EvalError::MissingDependency(77)));
    assert_eq!(format!("{:?}", template), before);
    assert!(!template.get_leaf_by_id(base).unwrap().cache_valid);
}

#[test]
fn evaluating_an_expression_writes_no_cache() {
    let mut template = Template::new();
    let base = leaf_with(&mut template, "base", num(8));
    let before = format!("{:?}", template);

    assert_eq!(template.eval_expr(&Expr::Reference(base)), Ok(Value::Integer(8)));
    assert_eq!(format!("{:?}", template), before);
}

#[test]
fn new_expression_leaves_the_cached_value_in_place() {
    let mut template = Template::new();
    let leaf = leaf_with(&mut template, "leaf", num(1));
    let reader = leaf_with(&mut template, "reader", Expr::Reference(leaf));

    assert_eq!(template.eval_leaf(leaf), Ok(Value::Integer(1)));
    template.set_leaf_expr(leaf, infix(num(2), num(3), OpKind::Add)).unwrap();
    assert_eq!(template.eval_leaf(leaf), Ok(Value::Integer(1)));
    template.set_leaf_value(leaf, Value::String("new".to_owned())).unwrap();
    assert_eq!(template.eval_leaf(leaf), Ok(Value::Integer(1)));
    assert_eq!(template.eval_leaf(reader), Ok(Value::Integer(1)));
    assert_eq!(
        template.get_leaf_by_id(leaf).unwrap().value,
        Some(Expr::Literal(Value::String("new".to_owned())))
    );
    assert_eq!(template.eval_expr(&Expr::Reference(leaf)), Ok(Value::Integer(1)));
}

#[test]
fn new_payload_leaves_the_cached_value_in_place() {
    let mut template = Template::new();
    let leaf = template.add_leaf_to("leaf", 0, false).unwrap().id;
    let total = template.add_meta_to("total", leaf, MetadataStart::Sum).unwrap().id;
    template.set_meta_data(total, Metadata::Sum(vec![1, 2])).unwrap();

    assert_eq!(template.eval_leaf(total), Ok(Value::Integer(3)));
    template.set_meta_data(total, Metadata::Sum(vec![10])).unwrap();
    assert_eq!(template.eval_leaf(total), Ok(Value::Integer(3)));
}

#[test]
fn what_has_no_value_says_why() {
    let mut template = Template::new();
    let group = template.add_group_to("g", 0).unwrap().id;
    let unset = template.add_leaf_to("unset", 0, false).unwrap().id;
    let common = template.add_meta_to("common", group, MetadataStart::Common).unwrap().id;
    let bound = template
        .add_meta_to("bound", unset, MetadataStart::Constraint(Constraint::LessThan(5)))
        .unwrap()
        .id;
    let reader = leaf_with(&mut template, "reader", Expr::Reference(unset));

    assert_eq!(template.eval_leaf(0), Err(EvalError::NotALeaf(0)));
    assert_eq!(template.eval_leaf(group), Err(EvalError::NotALeaf(group)));
    assert_eq!(template.eval_leaf(common - 1), Err(EvalError::NotALeaf(common - 1)));
    assert_eq!(template.eval_leaf(unset), Err(EvalError::MissingInfo(unset)));
    assert_eq!(template.eval_leaf(reader), Err(EvalError::MissingInfo(unset)));
    assert_eq!(template.eval_leaf(99), Err(EvalError::MissingDependency(99)));
    assert_eq!(template.eval_leaf(common), Err(EvalError::MetaType(common)));
    assert_eq!(template.eval_leaf(bound), Err(EvalError::MetaType(bound)));
    assert!(matches!(
        template.get_meta_by_id(bound).unwrap().data,
        Metadata::Constraint(Constraint::LessThan(5))
    ));
}

#[test]
fn sum_adds_its_integers() {
    let mut template = Template::new();
    let leaf = template.add_leaf_to("leaf", 0, false).unwrap().id;
    let empty = template.add_meta_to("empty", leaf, MetadataStart::Sum).unwrap().id;
    let total = template.add_meta_to("total", leaf, MetadataStart::Sum).unwrap().id;
    template.set_meta_data(total, Metadata::Sum(vec![5, 3, 4, 0, -1, 1])).unwrap();
    template.set_leaf_expr(leaf, Expr::Reference(total)).unwrap();

    assert_eq!(template.eval_leaf(empty), Ok(Value::Integer(0)));
    assert_eq!(template.eval_leaf(leaf), Ok(Value::Integer(12)));
    assert_eq!(sum_of(&vec![]), 0);
    assert_eq!(sum_of(&vec![-3, 10]), 7);
}

#[test]
fn concat_joins_strings_in_order() {
    let mut template = Template::new();
    let group = template.add_group_to("g", 0).unwrap().id;
    let word = leaf_with(&mut template, "word", text("c"));
    let joined = template.add_meta_to("joined", group, MetadataStart::Concat).unwrap().id;
    let empty = template.add_meta_to("empty", group, MetadataStart::Concat).unwrap().id;
    template.set_meta_data(joined, Metadata::Concat(vec![text("a"), text("b")])).unwrap();

    assert_eq!(template.eval_leaf(joined), Ok(Value::String("ab".to_owned())));
    assert_eq!(template.eval_leaf(empty), Ok(Value::String(String::new())));

    let longer = template.add_meta_to("longer", group, MetadataStart::Concat).unwrap().id;
    template
        .set_meta_data(
            longer,
            Metadata::Concat(vec![text("b"), text(""), Expr::Reference(word), text("a.")]),
        )
        .unwrap();
    assert_eq!(template.eval_leaf(longer), Ok(Value::String("bca.".to_owned())));
    assert!(template.get_leaf_by_id(word).unwrap().cache_valid);
}

#[test]
fn concat_refuses_what_is_no_string() {
    let mut template = Template::new();
    let group = template.add_group_to("g", 0).unwrap().id;
    let joined = template.add_meta_to("joined", group, MetadataStart::Concat).unwrap().id;
    let elements = vec![text("a"), num(1), Expr::Reference(99)];
    template.set_meta_data(joined, Metadata::Concat(elements.clone())).unwrap();

    assert_eq!(template.eval_leaf(joined), Err(EvalError::InvalidType));
    assert_eq!(
        template.concat_meta(&elements, &mut Vec::new(), &mut Vec::new()),
        EvalMetaStatus::InvalidConcatElement
    );
    assert_eq!(
        template.eval_meta_inner(
            &Metadata::Concat(vec![Expr::Literal(Value::List(vec![]))]),
            &mut Vec::new(),
            &mut Vec::new()
        ),
        EvalMetaStatus::InvalidConcatElement
    );

    let failing = vec![text("a"), Expr::Reference(99), num(1)];
    template.set_meta_data(joined, Metadata::Concat(failing.clone())).unwrap();
    assert_eq!(template.eval_leaf(joined), Err(EvalError::MissingDependency(99)));
    assert_eq!(
        template.concat_meta(&failing, &mut Vec::new(), &mut Vec::new()),
        EvalMetaStatus::InternalEvalError(EvalError::MissingDependency(99))
    );
}

#[test]
fn payloads_have_their_status() {
    let template = Template::new();
    let mut checked = Vec::new();
    let mut updates = Vec::new();

    assert_eq!(
        template.eval_meta_inner(&Metadata::Common { inner: 0 }, &mut checked, &mut updates),
        EvalMetaStatus::WrongType
    );
    assert_eq!(
        template.eval_meta_inner(
            &Metadata::Constraint(Constraint::Equal(1)),
            &mut checked,
            &mut updates
        ),
        EvalMetaStatus::WrongType
    );
    assert_eq!(
        template.eval_meta_inner(&Metadata::Ident, &mut checked, &mut updates),
        EvalMetaStatus::Ident
    );
    assert_eq!(
        template.eval_meta_inner(&Metadata::Sum(vec![2, 3]), &mut checked, &mut updates),
        EvalMetaStatus::Success(Value::Integer(5))
    );
    assert_eq!(
        template.eval_meta_inner(
            &Metadata::Concat(vec![text("a"), text("b")]),
            &mut checked,
            &mut updates
        ),
        EvalMetaStatus::Success(Value::String("ab".to_owned()))
    );
    assert!(checked.is_empty());
    assert!(updates.is_empty());
}

#[test]
fn ident_names_the_owner() {
    let mut template = Template::new();
    let group = template.add_group_to("abilities", 0).unwrap().id;
    let direct = template.add_meta_to("direct", group, MetadataStart::Ident).unwrap().id;
    let common = template.add_meta_to("mod", group, MetadataStart::Common).unwrap().id;
    let wrapped = template.add_meta_to("name", common, MetadataStart::Ident).unwrap().id;

    assert_eq!(template.eval_leaf(direct), Ok(Value::String("abilities".to_owned())));
    assert_eq!(template.eval_leaf(wrapped), Ok(Value::String("abilities".to_owned())));
    assert_eq!(template.owner_of(direct), Ok(group));
    assert_eq!(template.owner_of(wrapped), Ok(group));
    assert_eq!(template.owner_of(common), Ok(group));
    assert_eq!(template.owner_of(common - 1), Ok(group));
    assert_eq!(template.owner_of(group), Ok(group));
    assert_eq!(template.owner_of(99), Err(EvalError::MissingParent(99)));
}

#[test]
fn ident_names_leaves_and_the_root_too() {
    let mut template = Template::new();
    let leaf = template.add_leaf_to("strength", 0, false).unwrap().id;
    let on_leaf = template.add_meta_to("name", leaf, MetadataStart::Ident).unwrap().id;
    let on_root = template.add_meta_to("name", 0, MetadataStart::Ident).unwrap().id;
    let common = template.add_meta_to("shared", 0, MetadataStart::Common).unwrap().id;
    let inside = template.add_leaf_to("inside", common, false).unwrap().id;
    let on_inside = template.add_meta_to("name", inside, MetadataStart::Ident).unwrap().id;
    let in_common = template.add_meta_to("name", common, MetadataStart::Ident).unwrap().id;

    assert_eq!(template.eval_leaf(on_leaf), Ok(Value::String("strength".to_owned())));
    assert_eq!(template.eval_leaf(on_root), Ok(Value::String("[THE MOTHER]".to_owned())));
    assert_eq!(template.eval_leaf(on_inside), Ok(Value::String("inside".to_owned())));
    assert_eq!(template.eval_leaf(in_common), Ok(Value::String("[THE MOTHER]".to_owned())));
}

#[test]
fn ident_ref_follows_the_path_it_reads() {
    let mut template = Template::new();
    let scores = template.add_group_to("scores", 0).unwrap().id;
    let target = template.add_leaf_to("wisdom", scores, false).unwrap().id;
    template.set_leaf_value(target, Value::Integer(14)).unwrap();
    let path = leaf_with(&mut template, "path", text("scores.wisdom"));
    let via = leaf_with(&mut template, "via", Expr::IdentRef(path));

    assert_eq!(template.eval_leaf(via), Ok(Value::Integer(14)));
    assert!(template.get_leaf_by_id(path).unwrap().cache_valid);
    assert!(template.get_leaf_by_id(target).unwrap().cache_valid);
    assert_eq!(template.get_leaf_by_id(via).unwrap().cached, Some(Value::Integer(14)));
}

#[test]
fn ident_ref_through_concat_and_ident() {
    let mut template = Template::new();
    let scores = template.add_group_to("ability_scores", 0).unwrap().id;
    let score = template.add_leaf_to("strength", scores, false).unwrap().id;
    template.set_leaf_value(score, Value::Integer(16)).unwrap();
    let abilities = template.add_group_to("abilities", 0).unwrap().id;
    let strength = template.add_leaf_to("strength", abilities, false).unwrap().id;
    let name = template.add_meta_to("name", strength, MetadataStart::Ident).unwrap().id;
    let source = template.add_meta_to("source", strength, MetadataStart::Concat).unwrap().id;
    template
        .set_meta_data(source, Metadata::Concat(vec![text("ability_scores."), Expr::Reference(name)]))
        .unwrap();
    template
        .set_leaf_expr(
            strength,
            infix(infix(Expr::IdentRef(source), num(10), OpKind::Sub), num(2), OpKind::Div),
        )
        .unwrap();

    assert_eq!(template.eval_leaf(source), Ok(Value::String("ability_scores.strength".to_owned())));
    assert_eq!(template.eval_leaf(strength), Ok(Value::Integer(3)));
}

#[test]
fn ident_ref_says_what_went_wrong() {
    let mut template = Template::new();
    let number = leaf_with(&mut template, "number", num(3));
    let nowhere = leaf_with(&mut template, "nowhere", text("no.such.node"));
    let to_group = leaf_with(&mut template, "to_group", text("group"));
    let group = template.add_group_to("group", 0).unwrap().id;
    let own = leaf_with(&mut template, "own", text("looping"));
    let looping = leaf_with(&mut template, "looping", Expr::IdentRef(own));

    assert_eq!(
        template.eval_expr(&Expr::IdentRef(number)),
        Err(EvalError::InvalidIdentRef(number))
    );
    assert_eq!(
        template.eval_expr(&Expr::IdentRef(nowhere)),
        Err(EvalError::MissingPathDependency("no.such.node".to_owned()))
    );
    assert_eq!(template.eval_expr(&Expr::IdentRef(to_group)), Err(EvalError::NotALeaf(group)));
    assert_eq!(template.eval_expr(&Expr::IdentRef(99)), Err(EvalError::MissingDependency(99)));
    assert_eq!(template.eval_leaf(looping), Err(EvalError::InfiniteRecursion(looping)));
}

#[test]
fn the_chain_knows_its_members() {
    assert!(chain_has(&vec![4, 2, 9], 2));
    assert!(chain_has(&vec![4, 2, 9], 9));
    assert!(!chain_has(&vec![4, 2, 9], 3));
    assert!(!chain_has(&vec![], 0));
}

#[test]
fn inner_evaluation_reports_what_it_computed() {
    let mut template = Template::new();
    let base = leaf_with(&mut template, "base", num(8));
    let top = leaf_with(&mut template, "top", infix(Expr::Reference(base), num(1), OpKind::Add));
    let mut checked = vec![];
    let mut updates = vec![];

    assert_eq!(template.eval_leaf_inner(top, &mut checked, &mut updates), Ok(Value::Integer(9)));
    assert!(checked.is_empty());
    assert_eq!(updates, vec![(base, Value::Integer(8)), (top, Value::Integer(9))]);
    assert!(!template.get_leaf_by_id(top).unwrap().cache_valid);

    let mut on_chain = vec![base];
    assert_eq!(
        template.eval_leaf_inner(top, &mut on_chain, &mut updates),
        Err(EvalError::InfiniteRecursion(base))
    );
    assert_eq!(on_chain, vec![base]);
    assert_eq!(
        template.eval_expr_inner(&Expr::Reference(base), &mut on_chain, &mut updates),
        Err(EvalError::InfiniteRecursion(base))
    );
}

#[test]
fn sheet_of_ability_modifiers() {
    let names = ["strength", "dexterity", "constitution", "intelligence", "wisdom", "charisma"];
    let scores = [20, 16, 18, 10, 8, 12];
    let mut template = Template::new();
    let score_group = template.add_group_to("ability_scores", 0).unwrap().id;
    let ability_group = template.add_group_to("abilities", 0).unwrap().id;
    let mut ids = Vec::new();

    for (name, score) in names.iter().zip(scores.iter()) {
        let score_id = template.add_leaf_to(name, score_group, false).unwrap().id;
        template.set_leaf_value(score_id, Value::Integer(*score)).unwrap();
        let id = template.add_leaf_to(name, ability_group, false).unwrap().id;
        let name_id = template.add_meta_to("name", id, MetadataStart::Ident).unwrap().id;
        let source = template.add_meta_to("source", id, MetadataStart::Concat).unwrap().id;
        template
            .set_meta_data(
                source,
                Metadata::Concat(vec![text("ability_scores."), Expr::Reference(name_id)]),
            )
            .unwrap();
        template
            .set_leaf_expr(
                id,
                infix(infix(Expr::IdentRef(source), num(10), OpKind::Sub), num(2), OpKind::Div),
            )
            .unwrap();
        ids.push(id);
    }

    let modifiers: Vec<i64> = ids
        .iter()
        .map(|id| match template.eval_leaf(*id) {
            Ok(Value::Integer(value)) => value,
            other => panic!("no modifier: {:?}", other),
        })
        .collect();
    assert_eq!(modifiers, vec![5, 3, 4, 0, -1, 1]);

    let total = template.add_leaf_to("mod_sum", 0, false).unwrap().id;
    let total_meta = template.add_meta_to("name", total, MetadataStart::Sum).unwrap().id;
    template.set_meta_data(total_meta, Metadata::Sum(modifiers)).unwrap();
    template.set_leaf_expr(total, Expr::Reference(total_meta)).unwrap();
    assert_eq!(template.eval_leaf(total), Ok(Value::Integer(12)));
}
