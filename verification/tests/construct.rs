use sheet_template::{
    AddNodeError, EditLeafError, EditMetaError, Expr, Handle, Metadata, MetadataStart, Node,
    Template, Value, ValueKind,
};

#[test]
fn new_template_holds_the_root_only() {
    let template = Template::new();
    let nodes = template.list_nodes();

    assert_eq!(nodes.len(), 1);
    assert_eq!(nodes[0].1, "[THE MOTHER]");
    assert!(matches!(nodes[0].0, Node::Group(_)));
    let root = template.get_group_by_id(0).unwrap();
    assert_eq!(root.id, 0);
    assert_eq!(root.parent, None);
    assert!(root.children.is_empty());
    assert!(root.metadata.is_empty());
    assert_eq!(root.common, None);
    assert_eq!(template.new_id(), 1);
}

#[test]
fn resolve_finds_a_new_leaf_by_its_name() {
    let mut template = Template::new();
    let id = template.add_leaf_to("strength", 0, false).unwrap().id;

    assert_eq!(id, 1);
    assert_eq!(template.get_node_from("strength", 0), Some(id));
    assert_eq!(template.get_node_from("Strength", 0), None);
    assert_eq!(template.get_node_from("strengt", 0), None);
    assert_eq!(template.get_node_from("", 0), None);
}

#[test]
fn resolve_finds_new_nodes_of_every_kind() {
    let mut template = Template::new();
    let group = template.add_group_to("scores", 0).unwrap().id;
    let leaf = template.add_leaf_to("wisdom", group, true).unwrap().id;
    let meta = template.add_meta_to("total", leaf, MetadataStart::Sum).unwrap().id;
    let common = template.add_meta_to("shared", group, MetadataStart::Common).unwrap().id;
    let inside = template.add_leaf_to("bonus", common, false).unwrap().id;
    let inside_meta = template.add_meta_to("label", common, MetadataStart::Ident).unwrap().id;

    assert_eq!(template.get_node_from("scores", 0), Some(group));
    assert_eq!(template.get_node_from("wisdom", group), Some(leaf));
    assert_eq!(template.get_node_from("total", leaf), Some(meta));
    assert_eq!(template.get_node_from("shared", group), Some(common));
    assert_eq!(template.get_node_from("bonus", common), Some(inside));
    assert_eq!(template.get_node_from("label", common), Some(inside_meta));
    assert_eq!(template.get_node_from("scores.wisdom.total", 0), Some(meta));
    assert_eq!(template.get_node_from("scores.shared.bonus", 0), Some(inside));
    assert_eq!(template.get_node_from("scores.shared.label", 0), Some(inside_meta));
}

#[test]
fn identities_follow_creation_order() {
    let mut template = Template::new();
    let group = template.add_group_to("a", 0).unwrap().id;
    let leaf = template.add_leaf_to("b", group, false).unwrap().id;
    let common = template.add_meta_to("c", group, MetadataStart::Common).unwrap().id;
    let after = template.add_leaf_to("d", 0, false).unwrap().id;

    assert_eq!((group, leaf, common, after), (1, 2, 4, 5));
    let meta = template.get_meta_by_id(common).unwrap();
    assert!(matches!(meta.data, Metadata::Common { inner: 3 }));
    assert_eq!(meta.parent, group);
    let inner = template.get_group_by_id(3).unwrap();
    assert_eq!(inner.parent, Some(group));
    assert_eq!(template.list_nodes()[3].1, "[COMMON INNER]");
    let decorated = template.get_group_by_id(group).unwrap();
    assert_eq!(decorated.children, vec![leaf]);
    assert_eq!(decorated.metadata, vec![common]);
    assert_eq!(decorated.common, Some(common));
}

#[test]
fn new_leaf_starts_empty() {
    let mut template = Template::new();
    let id = template.add_leaf_to("gup", 0, true).unwrap().id;
    let leaf = template.get_leaf_by_id(id).unwrap();

    assert_eq!(leaf.id, id);
    assert_eq!(leaf.value_kind, ValueKind::Undefined);
    assert_eq!(leaf.value, None);
    assert_eq!(leaf.cached, None);
    assert!(!leaf.cache_valid);
    assert!(leaf.deferred);
    assert_eq!(leaf.parent, Some(0));
    assert!(leaf.metadata.is_empty());
    assert_eq!(template.get_group_by_id(0).unwrap().children, vec![id]);
}

#[test]
fn name_conflict_for_every_kind_of_node() {
    let mut template = Template::new();
    let group = template.add_group_to("gorp", 0).unwrap().id;
    template.add_leaf_to("gup", group, false).unwrap();
    template.add_meta_to("tag", group, MetadataStart::Ident).unwrap();

    for name in ["gup", "tag"] {
        assert_eq!(
            template.add_leaf_to(name, group, false).map(|h| h.id),
            Err(AddNodeError::NameConflict)
        );
        assert_eq!(
            template.add_group_to(name, group).map(|h| h.id),
            Err(AddNodeError::NameConflict)
        );
        assert_eq!(
            template.add_meta_to(name, group, MetadataStart::Sum).map(|h| h.id),
            Err(AddNodeError::NameConflict)
        );
    }
    assert_eq!(template.add_leaf_to("gup", 0, false).map(|h| h.id), Ok(4));
}

#[test]
fn name_conflict_inside_a_common_meta_node() {
    let mut template = Template::new();
    let common = template.add_meta_to("shared", 0, MetadataStart::Common).unwrap().id;
    template.add_leaf_to("bonus", common, false).unwrap();

    assert_eq!(
        template.add_meta_to("bonus", common, MetadataStart::Ident).map(|h| h.id),
        Err(AddNodeError::NameConflict)
    );
    assert_eq!(
        template.add_group_to("bonus", common).map(|h| h.id),
        Err(AddNodeError::NameConflict)
    );
}

#[test]
fn name_conflict_comes_before_an_invalid_name() {
    let mut template = Template::new();
    let group = template.add_group_to("a", 0).unwrap().id;
    template.add_leaf_to("b", group, false).unwrap();

    assert_eq!(
        template.add_leaf_to("a.b", 0, false).map(|h| h.id),
        Err(AddNodeError::NameConflict)
    );
    assert_eq!(
        template.add_leaf_to("a.c", 0, false).map(|h| h.id),
        Err(AddNodeError::InvalidName)
    );
}

#[test]
fn invalid_names_are_refused() {
    let mut template = Template::new();

    for name in [".", "a.b", ".a", "a.", "[COMMON INNER]"] {
        assert_eq!(
            template.add_leaf_to(name, 0, false).map(|h| h.id),
            Err(AddNodeError::InvalidName)
        );
        assert_eq!(
            template.add_group_to(name, 0).map(|h| h.id),
            Err(AddNodeError::InvalidName)
        );
        assert_eq!(
            template.add_meta_to(name, 0, MetadataStart::Ident).map(|h| h.id),
            Err(AddNodeError::InvalidName)
        );
    }
    assert_eq!(
        template.add_leaf_to("a.b", 50, false).map(|h| h.id),
        Err(AddNodeError::InvalidName)
    );
    assert_eq!(template.add_leaf_to("[THE MOTHER]", 0, false).map(|h| h.id), Ok(1));
    assert_eq!(template.add_leaf_to("", 0, false).map(|h| h.id), Ok(2));
    assert_eq!(template.add_leaf_to("st\u{e4}rke", 0, false).map(|h| h.id), Ok(3));
    assert_eq!(template.get_node_from("st\u{e4}rke", 0), Some(3));
}

#[test]
fn unknown_parent_is_reported() {
    let mut template = Template::new();

    assert_eq!(
        template.add_leaf_to("gup", 1, false).map(|h| h.id),
        Err(AddNodeError::ParentNotExists)
    );
    assert_eq!(
        template.add_group_to("gup", 7).map(|h| h.id),
        Err(AddNodeError::ParentNotExists)
    );
    assert_eq!(
        template.add_meta_to("gup", 7, MetadataStart::Sum).map(|h| h.id),
        Err(AddNodeError::ParentNotExists)
    );
}

#[test]
fn leaf_and_plain_meta_parents_take_no_children() {
    let mut template = Template::new();
    let leaf = template.add_leaf_to("gup", 0, false).unwrap().id;
    let sum = template.add_meta_to("sum", leaf, MetadataStart::Sum).unwrap().id;

    assert_eq!(
        template.add_leaf_to("x", leaf, false).map(|h| h.id),
        Err(AddNodeError::ParentIsLeaf)
    );
    assert_eq!(
        template.add_group_to("x", leaf).map(|h| h.id),
        Err(AddNodeError::ParentIsLeaf)
    );
    assert_eq!(
        template.add_leaf_to("x", sum, false).map(|h| h.id),
        Err(AddNodeError::ParentIsLeaf)
    );
    assert_eq!(
        template.add_meta_to("x", sum, MetadataStart::Ident).map(|h| h.id),
        Err(AddNodeError::ParentIsLeaf)
    );
    assert_eq!(template.add_meta_to("x", leaf, MetadataStart::Ident).map(|h| h.id), Ok(3));
}

#[test]
fn common_goes_on_a_group_once() {
    let mut template = Template::new();
    let group = template.add_group_to("gorp", 0).unwrap().id;
    let leaf = template.add_leaf_to("gup", 0, false).unwrap().id;
    let first = template.add_meta_to("one", group, MetadataStart::Common).unwrap().id;

    assert_eq!(
        template.add_meta_to("two", group, MetadataStart::Common).map(|h| h.id),
        Err(AddNodeError::InvalidParent)
    );
    assert_eq!(
        template.add_meta_to("two", leaf, MetadataStart::Common).map(|h| h.id),
        Err(AddNodeError::InvalidParent)
    );
    assert_eq!(
        template.add_meta_to("two", first, MetadataStart::Common).map(|h| h.id),
        Err(AddNodeError::InvalidParent)
    );
    assert_eq!(
        template.add_meta_to("two", 99, MetadataStart::Common).map(|h| h.id),
        Err(AddNodeError::ParentNotExists)
    );
    assert_eq!(template.get_group_by_id(group).unwrap().common, Some(first));
}

#[test]
fn failed_add_leaves_the_template_as_it_was() {
    let mut template = Template::new();
    let group = template.add_group_to("gorp", 0).unwrap().id;
    let leaf = template.add_leaf_to("gup", group, false).unwrap().id;
    let before = format!("{:?}", template);

    assert!(template.add_leaf_to("gup", group, false).is_err());
    assert!(template.add_leaf_to("a.b", group, false).is_err());
    assert!(template.add_leaf_to("x", 40, false).is_err());
    assert!(template.add_group_to("x", leaf).is_err());
    assert!(template.add_meta_to("x", leaf, MetadataStart::Common).is_err());
    assert!(template.add_meta_to("x", 40, MetadataStart::Concat).is_err());

    assert_eq!(format!("{:?}", template), before);
    assert_eq!(template.add_leaf_to("next", 0, false).map(|h| h.id), Ok(3));
}

#[test]
fn nodes_under_a_common_meta_node_join_its_inner_group() {
    let mut template = Template::new();
    let group = template.add_group_to("abilities", 0).unwrap().id;
    let common = template.add_meta_to("mod", group, MetadataStart::Common).unwrap().id;
    let inner = common - 1;
    let leaf = template.add_leaf_to("value", common, false).unwrap().id;
    let sub = template.add_group_to("more", common).unwrap().id;
    let meta = template.add_meta_to("name", common, MetadataStart::Ident).unwrap().id;
    let deep = template.add_leaf_to("deep", sub, false).unwrap().id;

    assert_eq!(template.get_group_by_id(inner).unwrap().metadata, vec![leaf, sub, meta]);
    assert!(template.get_group_by_id(inner).unwrap().children.is_empty());
    assert_eq!(template.get_group_by_id(group).unwrap().metadata, vec![common]);
    assert_eq!(template.get_leaf_by_id(leaf).unwrap().parent, Some(common));
    assert_eq!(template.get_group_by_id(sub).unwrap().parent, Some(common));
    assert_eq!(template.get_meta_by_id(meta).unwrap().parent, inner);
    assert_eq!(template.get_node_from("abilities.mod.value", 0), Some(leaf));
    assert_eq!(template.get_node_from("abilities.mod.more.deep", 0), Some(deep));
    assert_eq!(template.get_node_from("more.deep", common), Some(deep));
    assert_eq!(template.get_node_from("value", inner), Some(leaf));
    assert_eq!(template.get_node_from("abilities.value", 0), None);
}

#[test]
fn paths_stop_at_dead_ends() {
    let mut template = Template::new();
    let group = template.add_group_to("g", 0).unwrap().id;
    let leaf = template.add_leaf_to("l", group, false).unwrap().id;
    let sum = template.add_meta_to("s", leaf, MetadataStart::Sum).unwrap().id;

    assert_eq!(template.get_node_from("g.l", 0), Some(leaf));
    assert_eq!(template.get_node_from("g.l.s", 0), Some(sum));
    assert_eq!(template.get_node_from("g.l.s.x", 0), None);
    assert_eq!(template.get_node_from("x", sum), None);
    assert_eq!(template.get_node_from("g.x", 0), None);
    assert_eq!(template.get_node_from("g.", 0), None);
    assert_eq!(template.get_node_from(".g", 0), None);
    assert_eq!(template.get_node_from("g..l", 0), None);
    assert_eq!(template.get_node_from("l", 0), None);
    assert_eq!(template.get_node_from("g", 99), None);
    assert_eq!(template.get_node_from("[THE MOTHER]", 0), None);
}

#[test]
fn deep_chain_resolves_to_the_last_group() {
    let mut template = Template::new();
    let mut names: Vec<String> = Vec::new();
    let mut id = 0;

    for i in 0..600 {
        names.push(format!("g{i}"));
        id = template.add_group_to(&names[i], id).unwrap().id;
    }

    assert_eq!(id, 600);
    assert_eq!(template.get_node_from(&names.join("."), 0), Some(600));
    assert_eq!(template.get_node_from(&names[..512].join("."), 0), Some(512));
    assert_eq!(template.get_node_from(&names[1..].join("."), 1), Some(600));
    assert_eq!(template.get_node_from(&names[1..].join("."), 0), None);
}

#[test]
fn editing_reports_what_is_no_leaf() {
    let mut template = Template::new();
    let group = template.add_group_to("g", 0).unwrap().id;
    let leaf = template.add_leaf_to("l", 0, false).unwrap().id;
    let meta = template.add_meta_to("m", leaf, MetadataStart::Sum).unwrap().id;

    assert_eq!(template.set_leaf_value(99, Value::Integer(1)), Err(EditLeafError::NotExists));
    assert_eq!(template.set_leaf_expr(99, Expr::Reference(0)), Err(EditLeafError::NotExists));
    assert_eq!(template.set_leaf_value(group, Value::Integer(1)), Err(EditLeafError::NotLeaf));
    assert_eq!(template.set_leaf_value(0, Value::Integer(1)), Err(EditLeafError::NotLeaf));
    assert_eq!(template.set_leaf_expr(meta, Expr::Reference(0)), Err(EditLeafError::NotLeaf));
    assert_eq!(template.set_leaf_value(leaf, Value::Integer(1)), Ok(()));
}

#[test]
fn setting_a_leaf_recomputes_its_kind() {
    let mut template = Template::new();
    let number = template.add_leaf_to("number", 0, false).unwrap().id;
    let other = template.add_leaf_to("other", 0, false).unwrap().id;
    let kind = |template: &Template, id| template.get_leaf_by_id(id).unwrap().value_kind;

    template.set_leaf_value(number, Value::Integer(4)).unwrap();
    assert_eq!(kind(&template, number), ValueKind::Integer);
    assert_eq!(
        template.get_leaf_by_id(number).unwrap().value,
        Some(Expr::Literal(Value::Integer(4)))
    );
    template.set_leaf_expr(other, Expr::Reference(number)).unwrap();
    assert_eq!(kind(&template, other), ValueKind::Integer);
    template.set_leaf_value(number, Value::String("four".to_owned())).unwrap();
    assert_eq!(kind(&template, number), ValueKind::String);
    assert_eq!(kind(&template, other), ValueKind::Integer);
    template.set_leaf_value(number, Value::List(vec![Expr::Reference(1)])).unwrap();
    assert_eq!(kind(&template, number), ValueKind::List);
    template.set_leaf_expr(other, Expr::Reference(0)).unwrap();
    assert_eq!(kind(&template, other), ValueKind::Undefined);
    template.set_leaf_expr(other, Expr::Reference(77)).unwrap();
    assert_eq!(kind(&template, other), ValueKind::Undefined);
    template.set_leaf_expr(other, Expr::IdentRef(number)).unwrap();
    assert_eq!(kind(&template, other), ValueKind::String);
    assert_eq!(template.check_expr_type(&Expr::Reference(number)), ValueKind::List);
}

#[test]
fn payload_is_replaced_by_one_of_its_kind_only() {
    let mut template = Template::new();
    let leaf = template.add_leaf_to("l", 0, false).unwrap().id;
    let sum = template.add_meta_to("sum", leaf, MetadataStart::Sum).unwrap().id;
    let concat = template.add_meta_to("concat", leaf, MetadataStart::Concat).unwrap().id;
    let ident = template.add_meta_to("ident", leaf, MetadataStart::Ident).unwrap().id;
    let common = template.add_meta_to("common", 0, MetadataStart::Common).unwrap().id;

    assert_eq!(template.set_meta_data(sum, Metadata::Sum(vec![1, 2])), Ok(()));
    assert!(matches!(&template.get_meta_by_id(sum).unwrap().data, Metadata::Sum(v) if *v == vec![1, 2]));
    assert_eq!(template.set_meta_data(concat, Metadata::Concat(vec![])), Ok(()));
    assert!(template.set_meta_data(sum, Metadata::Concat(vec![])).is_err());
    assert!(template.set_meta_data(concat, Metadata::Sum(vec![])).is_err());
    assert!(template.set_meta_data(ident, Metadata::Ident).is_err());
    assert!(template.set_meta_data(common, Metadata::Common { inner: 0 }).is_err());
    assert!(template.set_meta_data(leaf, Metadata::Sum(vec![])).is_err());
    assert!(template.set_meta_data(99, Metadata::Sum(vec![])).is_err());
    assert!(matches!(&template.get_meta_by_id(sum).unwrap().data, Metadata::Sum(v) if *v == vec![1, 2]));
    let mut handle = template.get_meta_handle("l.ident").unwrap();
    assert!(matches!(handle.set_value(Metadata::Sum(vec![])), Err(EditMetaError::WrongKind)));
}

#[test]
fn getters_tell_the_kinds_apart() {
    let mut template = Template::new();
    let group = template.add_group_to("g", 0).unwrap().id;
    let leaf = template.add_leaf_to("l", 0, false).unwrap().id;
    let meta = template.add_meta_to("m", 0, MetadataStart::Ident).unwrap().id;

    assert!(template.get_group_by_id(group).is_some());
    assert!(template.get_leaf_by_id(group).is_none());
    assert!(template.get_meta_by_id(group).is_none());
    assert!(template.get_leaf_by_id(leaf).is_some());
    assert!(template.get_group_by_id(leaf).is_none());
    assert!(template.get_meta_by_id(meta).is_some());
    assert!(template.get_leaf_by_id(meta).is_none());
    assert!(template.get_node_by_id(meta).is_some());
    assert!(template.get_node_by_id(4).is_none());
    assert!(template.get_leaf_by_id(4).is_none());
    assert!(template.is_group_id(0) && template.is_leaf_id(leaf) && template.is_meta_id(meta));
    assert!(!template.is_group_id(leaf) && !template.is_leaf_id(9) && !template.is_meta_id(0));
    assert_eq!(template.inner_of(meta), None);
    let names: Vec<&str> = template.list_nodes().iter().map(|entry| entry.1.as_str()).collect();
    assert_eq!(names, vec!["[THE MOTHER]", "g", "l", "m"]);
}
