use oxide::data_types::DataType;
use oxide::token_tree::{ChildrenType, ScopeBlock, ScopeID, Token, TokenNode, TokenTree};

fn token(text: &str) -> Token {
    Token { value: text.to_string(), priority: 0, line: 0, column: 0 }
}

fn tree_of(texts: &[&str]) -> TokenTree {
    let mut tree = TokenTree::new();
    for t in texts {
        tree.append(token(t));
    }
    tree
}

fn texts(tree: &TokenTree) -> Vec<String> {
    let mut out = Vec::new();
    let mut it = tree.iter();
    while let Some(node) = it.next() {
        out.push(node.item.value.clone());
    }
    out
}

fn ids(tree: &TokenTree) -> Vec<usize> {
    let mut out = Vec::new();
    let mut cur = tree.first_node();
    while let Some(id) = cur {
        out.push(id);
        cur = tree.right_of(id);
    }
    out
}

#[test]
fn append_and_iterate() {
    let tree = tree_of(&["a", "+", "b"]);
    assert_eq!(texts(&tree), vec!["a", "+", "b"]);
    assert_eq!(texts(&tree), vec!["a", "+", "b"]);
    assert!(!tree.is_empty());
    assert!(!tree.has_one_item());
    assert_eq!(tree.first_item().unwrap().value, "a");
    assert_eq!(tree.last_item().unwrap().value, "b");
    let last = tree.last_node().unwrap();
    assert!(matches!(tree.node(last).data_type, DataType::Void));
    assert!(tree.node(last).children.is_none());
}

#[test]
fn links_are_consistent_both_ways() {
    let tree = tree_of(&["1", "2", "3", "4"]);
    let forward = ids(&tree);
    let mut backward = Vec::new();
    let mut cur = tree.last_node();
    while let Some(id) = cur {
        backward.push(id);
        cur = tree.left_of(id);
    }
    backward.reverse();
    assert_eq!(forward, backward);
}

#[test]
fn drop_ends() {
    let mut tree = tree_of(&["x", "y", "z"]);
    tree.drop_first();
    assert_eq!(texts(&tree), vec!["y", "z"]);
    tree.drop_last();
    assert_eq!(texts(&tree), vec!["y"]);
    assert!(tree.has_one_item());
    tree.drop_last();
    assert!(tree.is_empty());
    assert!(tree.first_item().is_none());
    tree.drop_first();
    tree.drop_last();
    assert!(tree.is_empty());
}

#[test]
fn extract_node_repairs_neighbours() {
    let mut tree = tree_of(&["a", "b", "c", "d"]);
    let all = ids(&tree);
    let node = tree.extract_node(all[1]).unwrap();
    assert_eq!(node.item.value, "b");
    assert_eq!(texts(&tree), vec!["a", "c", "d"]);
    assert_eq!(tree.right_of(all[0]), Some(all[2]));
    assert_eq!(tree.left_of(all[2]), Some(all[0]));
    assert!(tree.extract_node(all[1]).is_none());
    assert!(tree.extract_node(99).is_none());
    tree.extract_node(all[0]).unwrap();
    tree.extract_node(all[3]).unwrap();
    assert_eq!(texts(&tree), vec!["c"]);
    assert_eq!(tree.first_node(), Some(all[2]));
    assert_eq!(tree.last_node(), Some(all[2]));
}

#[test]
fn extract_slice_keeps_the_rest_in_order() {
    for n in 1..7usize {
        for a in 0..n {
            for b in a..n {
                let names: Vec<String> = (0..n).map(|i| i.to_string()).collect();
                let refs: Vec<&str> = names.iter().map(|s| s.as_str()).collect();
                let mut tree = tree_of(&refs);
                let all = ids(&tree);
                let slice = tree.extract_slice(all[a], all[b]);
                let mut rest: Vec<String> = names[..a].to_vec();
                rest.extend_from_slice(&names[b + 1..]);
                assert_eq!(texts(&tree), rest);
                assert_eq!(texts(&slice), names[a..=b].to_vec());
                let remaining = ids(&tree);
                let mut back = Vec::new();
                let mut cur = tree.last_node();
                while let Some(id) = cur {
                    back.push(id);
                    cur = tree.left_of(id);
                }
                back.reverse();
                assert_eq!(remaining, back);
            }
        }
    }
}

#[test]
fn substitute_keeps_position() {
    let mut tree = tree_of(&["f", "(", "x", ")"]);
    let all = ids(&tree);
    let mut call = TokenNode::new(token("f(x)"));
    call.data_type = DataType::I32;
    call.children = Some(ChildrenType::Call {
        callable: Box::new(TokenNode::new(token("f"))),
        args: vec![TokenNode::new(token("x"))],
    });
    tree.substitute(all[0], call);
    let inner = tree.extract_slice(all[1], all[3]);
    assert_eq!(texts(&inner), vec!["(", "x", ")"]);
    assert_eq!(texts(&tree), vec!["f(x)"]);
    assert!(matches!(tree.node(all[0]).data_type, DataType::I32));
    assert!(matches!(tree.node(all[0]).children, Some(ChildrenType::Call { .. })));

    let mut node = TokenNode::new(token("old"));
    node.substitute(TokenNode::new(token("new")));
    assert_eq!(node.item.value, "new");
}

#[test]
fn vectors_and_nested_blocks() {
    let tree = tree_of(&["p", "q"]);
    let nodes = tree.into_vec();
    assert_eq!(nodes.len(), 2);
    assert_eq!(nodes[1].item.value, "q");
    let rebuilt = TokenTree::from_slice(nodes);
    assert_eq!(texts(&rebuilt), vec!["p", "q"]);
    let mut block = ScopeBlock::new(ScopeID(3));
    block.statements.push(rebuilt);
    assert_eq!(block.scope_id, ScopeID(3));
    assert_eq!(block.statements.len(), 1);
}

#[test]
fn debug_snapshot_nests_children() {
    let mut tree = TokenTree::new();
    for t in ["a", "b", "c", "d", "e", "f"] {
        tree.append(token(t));
    }
    let all = ids(&tree);

    let mut a = TokenNode::new(Token { value: "a".to_string(), priority: 3, line: 1, column: 4 });
    a.data_type = DataType::I32;
    tree.substitute(all[0], a);

    let mut b = TokenNode::new(Token { value: "b".to_string(), priority: -12, line: 0, column: 0 });
    b.children = Some(ChildrenType::Tree(tree_of(&["x"])));
    tree.substitute(all[1], b);

    let mut block = ScopeBlock::new(ScopeID(0));
    block.statements.push(tree_of(&["y"]));
    let mut c = TokenNode::new(token("c"));
    c.children = Some(ChildrenType::Block(block));
    tree.substitute(all[2], c);

    let mut d = TokenNode::new(token("d"));
    d.children = Some(ChildrenType::FunctionParams(vec![("p".to_string(), DataType::U8)]));
    tree.substitute(all[3], d);

    let mut e = TokenNode::new(token("e"));
    e.children = Some(ChildrenType::TypeCast { data_type: DataType::F64, expr: Box::new(TokenNode::new(token("v"))) });
    tree.substitute(all[4], e);

    let mut f = TokenNode::new(token("f"));
    f.children = Some(ChildrenType::Call {
        callable: Box::new(TokenNode::new(token("g"))),
        args: vec![TokenNode::new(token("h")), TokenNode::new(token("k"))],
    });
    tree.substitute(all[5], f);

    let expected = "| a (p: 3) (dt: i32)\n\
                    | b (p: -12) (dt: void)\n\
                    \x20 | x (p: 0) (dt: void)\n\
                    | c (p: 0) (dt: void)\n\
                    \x20 | y (p: 0) (dt: void)\n\
                    \x20 ---\n\
                    | d (p: 0) (dt: void)\n\
                    p: u8\n\
                    | e (p: 0) (dt: void)\n\
                    (v) as f64| f (p: 0) (dt: void)\n\
                    g(h, k)";
    assert_eq!(tree.debug_string(), expected.replace("\x20 ", "  "));
}

#[test]
fn debug_snapshot_of_a_function() {
    let mut body = ScopeBlock::new(ScopeID(1));
    body.statements.push(tree_of(&["ret"]));
    let mut node = TokenNode::new(token("fn"));
    node.children = Some(ChildrenType::Function {
        name: "main".to_string(),
        params: vec![("x".to_string(), DataType::I64), ("s".to_string(), DataType::Ref(Box::new(DataType::Char)))],
        return_type: DataType::Bool,
        body,
    });
    let mut tree = TokenTree::new();
    tree.append(token("fn"));
    let id = tree.first_node().unwrap();
    tree.substitute(id, node);
    assert_eq!(
        tree.debug_string(),
        "| fn (p: 0) (dt: void)\nfn main (x: i64, s: &char) -> bool\n  | ret (p: 0) (dt: void)\n  ---\n"
    );
    assert_eq!(TokenTree::new().debug_string(), "");
}

#[test]
fn runs_can_be_checked_before_extraction() {
    let mut tree = tree_of(&["a", "b", "c", "d"]);
    let all = ids(&tree);
    assert!(tree.is_run(all[1], all[3]));
    assert!(tree.is_run(all[2], all[2]));
    assert!(!tree.is_run(all[3], all[1]));
    assert!(!tree.is_run(all[0], 42));
    tree.extract_node(all[2]).unwrap();
    assert!(!tree.is_run(all[2], all[3]));
    assert!(tree.is_run(all[0], all[3]));
    let run = tree.extract_slice(all[0], all[1]);
    assert_eq!(texts(&run), vec!["a", "b"]);
    assert_eq!(texts(&tree), vec!["d"]);
}
