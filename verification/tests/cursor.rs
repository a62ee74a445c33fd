use sheet_template::{
    AddNodeError, EditLeafError, EditMetaError, EvalError, Expr, GroupHandle, Handle, LeafHandle,
    MetaHandle, Metadata, MetadataStart, NodeHandle, NodeTree, Template, Value,
};

#[test]
fn template_is_a_handle_on_the_root() {
    let mut template = Template::new();

    assert_eq!(template.get_id(), 0);
    assert_eq!(template.get_template().new_id(), 1);
    assert_eq!(template.get_template_mut().add_leaf_to("gup", 0, false).map(|h| h.id), Ok(1));
    assert_eq!(template.add_group("gorp").map(|h| h.id), Ok(2));
    assert_eq!(template.add_meta("tag", MetadataStart::Ident).map(|h| h.id), Ok(3));
    assert_eq!(template.get_group_by_id(0).unwrap().children, vec![1, 2]);
    assert_eq!(template.get_group_by_id(0).unwrap().metadata, vec![3]);
}

#[test]
fn handles_know_their_node() {
    let mut template = Template::new();
    let mut group = template.add_group("gorp").unwrap();
    assert_eq!(group.get_id(), 1);
    let mut leaf = group.add_leaf("gup", true).unwrap();
    assert_eq!(leaf.get_id(), 2);
    assert_eq!(leaf.get_template().new_id(), 3);
    let meta = leaf.add_meta("total", MetadataStart::Sum).unwrap();
    assert_eq!(meta.get_id(), 3);

    assert_eq!(template.get_node_from("gorp.gup.total", 0), Some(3));
    assert_eq!(template.get_leaf_by_id(2).unwrap().parent, Some(1));
    assert_eq!(template.get_meta_by_id(3).unwrap().parent, 2);
}

#[test]
fn group_handle_resolves_from_its_group() {
    let mut template = Template::new();
    let mut group = template.add_group("gorp").unwrap();
    group.add_leaf("gup", false).unwrap();
    group.add_group("sub").unwrap().add_leaf("deep", false).unwrap();
    group.add_meta("tag", MetadataStart::Ident).unwrap();

    assert_eq!(group.get_leaf("gup").map(|leaf| leaf.id), Some(2));
    assert_eq!(group.get_leaf("sub.deep").map(|leaf| leaf.id), Some(4));
    assert_eq!(group.get_group("sub").map(|found| found.id), Some(3));
    assert_eq!(group.get_meta("tag").map(|meta| meta.id), Some(5));
    assert!(group.get_leaf("sub").is_none());
    assert!(group.get_group("gup").is_none());
    assert!(group.get_meta("gup").is_none());
    assert!(group.get_node("gorp").is_none());
    assert!(group.get_node("tag").is_some());
    assert_eq!(group.get_leaf_handle("sub.deep").map(|h| h.id), Some(4));
    assert_eq!(group.get_group_handle("sub").map(|h| h.id), Some(3));
    assert_eq!(group.get_meta_handle("tag").map(|h| h.id), Some(5));
    assert!(group.get_leaf_handle("tag").is_none());
    assert!(group.get_group_handle("gup").is_none());
    assert!(group.get_meta_handle("sub").is_none());
    assert!(matches!(group.get_handle("gup"), Some(NodeHandle::Leaf(LeafHandle { id: 2, .. }))));
    assert!(matches!(group.get_handle("sub"), Some(NodeHandle::Group(GroupHandle { id: 3, .. }))));
    assert!(matches!(group.get_handle("tag"), Some(NodeHandle::Meta(MetaHandle { id: 5, .. }))));
    assert!(group.get_handle("nothing").is_none());
}

#[test]
fn handle_errors_are_those_of_the_template() {
    let mut template = Template::new();
    let mut leaf = template.add_leaf("gup", false).unwrap();

    assert_eq!(leaf.add_meta("a.b", MetadataStart::Sum).map(|h| h.id), Err(AddNodeError::InvalidName));
    assert_eq!(
        leaf.add_meta("c", MetadataStart::Common).map(|h| h.id),
        Err(AddNodeError::InvalidParent)
    );
    let mut group = template.add_group("gorp").unwrap();
    group.add_leaf("x", false).unwrap();
    assert_eq!(group.add_leaf("x", false).map(|h| h.id), Err(AddNodeError::NameConflict));
    assert_eq!(group.add_group("x").map(|h| h.id), Err(AddNodeError::NameConflict));
    let mut gone = GroupHandle { id: 70, template: &mut template };
    assert_eq!(gone.add_leaf("x", false).map(|h| h.id), Err(AddNodeError::ParentNotExists));
    assert!(gone.get_node("x").is_none());
}

#[test]
fn leaf_handle_edits_and_evaluates() {
    let mut template = Template::new();
    let mut leaf = template.add_leaf("gup", false).unwrap();

    assert_eq!(leaf.get_value(), None);
    assert_eq!(leaf.eval(), Err(EvalError::MissingInfo(1)));
    leaf.set_value(Value::Integer(7)).unwrap().set_expr(Expr::Reference(1)).unwrap();
    assert_eq!(leaf.get_value(), Some(&Expr::Reference(1)));
    assert_eq!(leaf.eval(), Err(EvalError::InfiniteRecursion(1)));
    leaf.set_value(Value::Integer(7)).unwrap();
    assert_eq!(leaf.eval(), Ok(Value::Integer(7)));
    assert_eq!(template.get_leaf_by_id(1).unwrap().cached, Some(Value::Integer(7)));
}

#[test]
fn leaf_handle_on_another_kind_of_node() {
    let mut template = Template::new();
    template.add_group("gorp").unwrap();

    let mut on_group = LeafHandle { id: 1, template: &mut template };
    assert_eq!(on_group.set_value(Value::Integer(1)).map(|h| h.id), Err(EditLeafError::NotLeaf));
    assert_eq!(on_group.get_value(), None);
    assert_eq!(on_group.eval(), Err(EvalError::NotALeaf(1)));
    let mut on_nothing = LeafHandle { id: 9, template: &mut template };
    assert_eq!(
        on_nothing.set_expr(Expr::Reference(0)).map(|h| h.id),
        Err(EditLeafError::NotExists)
    );
    assert_eq!(on_nothing.get_value(), None);
}

#[test]
fn common_handle_works_in_its_inner_group() {
    let mut template = Template::new();
    let mut group = template.add_group("abilities").unwrap();
    let mut common = group.add_meta("mod", MetadataStart::Common).unwrap();

    assert_eq!(common.id, 3);
    assert_eq!(common.check_common(), Some(2));
    assert_eq!(common.add_leaf("bonus", false).map(|h| h.id), Ok(4));
    assert_eq!(common.add_group("more").map(|h| h.id), Ok(5));
    assert_eq!(common.add_meta("name", MetadataStart::Ident).map(|h| h.id), Ok(6));
    assert_eq!(common.add_leaf("bonus", false).map(|h| h.id), Err(AddNodeError::NameConflict));
    assert_eq!(common.add_group("name").map(|h| h.id), Err(AddNodeError::NameConflict));
    assert_eq!(common.add_leaf("a.b", false).map(|h| h.id), Err(AddNodeError::InvalidName));

    assert_eq!(common.get_leaf("bonus").map(|leaf| leaf.id), Some(4));
    assert_eq!(common.get_group("more").map(|found| found.id), Some(5));
    assert!(common.get_node("name").is_some());
    assert!(common.get_leaf("more").is_none());
    assert!(common.get_group("bonus").is_none());
    assert!(common.get_node("nothing").is_none());
    assert_eq!(common.get_leaf_handle("bonus").map(|h| h.id), Some(4));
    assert_eq!(common.get_group_handle("more").map(|h| h.id), Some(5));
    assert!(common.get_leaf_handle("more").is_none());
    assert!(common.get_group_handle("bonus").is_none());
    assert!(matches!(common.get_handle("name"), Some(NodeHandle::Meta(MetaHandle { id: 6, .. }))));
    assert!(matches!(common.get_handle("bonus"), Some(NodeHandle::Leaf(LeafHandle { id: 4, .. }))));
    assert!(matches!(common.get_handle("more"), Some(NodeHandle::Group(GroupHandle { id: 5, .. }))));
    assert!(common.get_handle("nothing").is_none());

    let inner = template.get_group_by_id(2).unwrap();
    assert_eq!(inner.children, vec![4, 5]);
    assert_eq!(inner.metadata, vec![6]);
    assert_eq!(template.get_leaf_by_id(4).unwrap().parent, Some(2));
    assert_eq!(template.get_node_from("abilities.mod.more", 0), Some(5));
}

#[test]
fn plain_meta_handle_has_no_inner_group() {
    let mut template = Template::new();
    let mut leaf = template.add_leaf("gup", false).unwrap();
    let mut sum = leaf.add_meta("total", MetadataStart::Sum).unwrap();

    assert_eq!(sum.check_common(), None);
    assert_eq!(sum.add_leaf("x", false).map(|h| h.id), Err(AddNodeError::InvalidParent));
    assert_eq!(sum.add_group("x").map(|h| h.id), Err(AddNodeError::InvalidParent));
    assert!(sum.get_handle("x").is_none());
    assert!(sum.get_leaf_handle("x").is_none());
    assert!(sum.get_group_handle("x").is_none());
    assert!(sum.get_node("x").is_none());
    assert!(sum.get_leaf("x").is_none());
    assert!(sum.get_group("x").is_none());
}

#[test]
fn meta_handle_replaces_the_payload() {
    let mut template = Template::new();
    let mut leaf = template.add_leaf("gup", false).unwrap();
    let mut sum = leaf.add_meta("total", MetadataStart::Sum).unwrap();

    assert!(sum.set_value(Metadata::Sum(vec![4, 5])).is_ok());
    assert!(matches!(sum.set_value(Metadata::Concat(vec![])), Err(EditMetaError::WrongKind)));
    assert!(matches!(sum.set_value(Metadata::Ident), Err(EditMetaError::WrongKind)));
    assert_eq!(template.eval_leaf(2), Ok(Value::Integer(9)));
    let mut on_leaf = MetaHandle { id: 1, template: &mut template };
    assert!(matches!(on_leaf.set_value(Metadata::Sum(vec![])), Err(EditMetaError::WrongKind)));
    assert_eq!(on_leaf.check_common(), None);
}
