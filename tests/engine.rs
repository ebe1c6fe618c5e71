use commands::frontier::{AcceptError, AdvanceError, Frontier};
use commands::grammar::{Grammar, GrammarError, GrammarNode};
use commands::nodes::{
    CommandNode, FlagParameterNode, NamedParameterNode, NodeId, ParameterNameNode,
    ParameterNodeFields, SimpleParameterNode, WrapperNode, PRIORITY_PARAMETER,
};
use commands::text::{starts_with, str_eq, str_lex_le};

fn command(g: &mut Grammar, parent: NodeId, name: &str, priority: i32, hidden: bool) -> NodeId {
    let id = g
        .add_node(GrammarNode::Command(CommandNode::new(name, priority, hidden, None, None)))
        .unwrap();
    g.add_successor(parent, id).unwrap();
    id
}

fn flag(name: &str, required: bool, repeatable: bool) -> GrammarNode {
    GrammarNode::Flag(FlagParameterNode {
        parameter_fields: ParameterNodeFields::new(
            name,
            PRIORITY_PARAMETER,
            false,
            None,
            required,
            repeatable,
            None,
        ),
    })
}

fn simple(name: &str, required: bool, repeatable: bool) -> GrammarNode {
    GrammarNode::Simple(SimpleParameterNode {
        parameter_fields: ParameterNodeFields::new(
            name,
            PRIORITY_PARAMETER,
            false,
            None,
            required,
            repeatable,
            None,
        ),
    })
}

/// `show` with an optional flag `all` that may follow itself.
fn show_grammar(repeatable: bool) -> (Grammar, NodeId, NodeId) {
    let mut g = Grammar::new();
    let show = command(&mut g, 0, "show", 0, false);
    let all = g.add_node(flag("all", false, repeatable)).unwrap();
    g.add_successor(show, all).unwrap();
    g.add_successor(all, all).unwrap();
    g.declare_parameter(show, all).unwrap();
    (g, show, all)
}

fn symbols(f: &Frontier, g: &Grammar, partial: &str) -> Vec<String> {
    f.complete(g, partial).into_iter().map(|c| c.symbol).collect()
}

#[test]
fn show_all_is_accepted_with_flag_set() {
    let (g, show, all) = show_grammar(false);
    let mut f = Frontier::new(&g);
    assert_eq!(f.advance(&g, "show").unwrap(), show);
    assert_eq!(f.advance(&g, "all").unwrap(), all);
    let a = f.accept(&g).unwrap();
    assert_eq!(a.command, show);
    assert_eq!(a.bindings.len(), 1);
    assert_eq!(a.bindings[0].parameter, all);
    assert_eq!(a.bindings[0].value, "true");
}

#[test]
fn show_all_all_fails_at_second_all() {
    let (g, _, _) = show_grammar(false);
    let mut f = Frontier::new(&g);
    f.advance(&g, "show").unwrap();
    f.advance(&g, "all").unwrap();
    match f.advance(&g, "all") {
        Err(AdvanceError::NoMatch(t)) => assert_eq!(t, "all"),
        other => panic!("expected NoMatch, got {:?}", other),
    }
}

#[test]
fn repeatable_flag_matches_every_time() {
    let (g, _, all) = show_grammar(true);
    let mut f = Frontier::new(&g);
    f.advance(&g, "show").unwrap();
    for _ in 0..3 {
        assert_eq!(f.advance(&g, "all").unwrap(), all);
    }
    let a = f.accept(&g).unwrap();
    assert_eq!(a.bindings.len(), 3);
}

#[test]
fn used_flag_is_no_longer_completed() {
    let (g, _, _) = show_grammar(false);
    let mut f = Frontier::new(&g);
    f.advance(&g, "show").unwrap();
    assert_eq!(symbols(&f, &g, ""), vec!["<all>".to_string()]);
    f.advance(&g, "all").unwrap();
    assert!(f.complete(&g, "").is_empty());
}

fn set_grammar() -> (Grammar, NodeId, NodeId) {
    let mut g = Grammar::new();
    let set = g
        .add_node(GrammarNode::Command(CommandNode::new("set", 0, false, None, Some(7))))
        .unwrap();
    g.add_successor(0, set).unwrap();
    let value = g.add_node(simple("value", true, false)).unwrap();
    g.add_successor(set, value).unwrap();
    g.declare_parameter(set, value).unwrap();
    (g, set, value)
}

#[test]
fn set_without_value_is_missing_it() {
    let (g, _, _) = set_grammar();
    let mut f = Frontier::new(&g);
    f.advance(&g, "set").unwrap();
    match f.accept(&g) {
        Err(AcceptError::MissingRequiredParameter(syms)) => {
            assert_eq!(syms, vec!["<value>".to_string()])
        }
        other => panic!("expected MissingRequiredParameter, got {:?}", other),
    }
}

#[test]
fn set_with_value_is_accepted() {
    let (g, set, value) = set_grammar();
    let mut f = Frontier::new(&g);
    f.advance(&g, "set").unwrap();
    assert_eq!(f.advance(&g, "42").unwrap(), value);
    let a = f.accept(&g).unwrap();
    assert_eq!(a.command, set);
    assert_eq!(a.handler, Some(7));
    assert_eq!(a.bindings.len(), 1);
    assert_eq!(a.bindings[0].parameter, value);
    assert_eq!(a.bindings[0].value, "42");
}

#[test]
fn duplicate_sibling_commands_are_refused() {
    let mut g = Grammar::new();
    command(&mut g, 0, "go", 0, false);
    let second = g
        .add_node(GrammarNode::Command(CommandNode::new("go", 0, false, None, None)))
        .unwrap();
    assert_eq!(g.add_successor(0, second), Err(GrammarError::AmbiguousSibling));
    assert_eq!(g.successors(0).len(), 1);
}

#[test]
fn same_name_other_priority_is_allowed() {
    let mut g = Grammar::new();
    command(&mut g, 0, "go", 0, false);
    let second = g
        .add_node(GrammarNode::Command(CommandNode::new("go", 1, false, None, None)))
        .unwrap();
    assert_eq!(g.add_successor(0, second), Ok(()));
    let mut f = Frontier::new(&g);
    assert_eq!(f.advance(&g, "go").unwrap(), second);
}

#[test]
fn empty_partial_lists_visible_by_priority_then_name() {
    let mut g = Grammar::new();
    let b = command(&mut g, 0, "b", 0, false);
    let a = command(&mut g, 0, "a", 0, false);
    let z = command(&mut g, 0, "z", 5, false);
    command(&mut g, 0, "h", 9, true);
    let f = Frontier::new(&g);
    let r = f.complete(&g, "");
    let nodes: Vec<NodeId> = r.iter().map(|c| c.node).collect();
    assert_eq!(nodes, vec![z, a, b]);
}

#[test]
fn partial_token_filters_by_prefix() {
    let mut g = Grammar::new();
    command(&mut g, 0, "show", 0, false);
    command(&mut g, 0, "shutdown", 0, false);
    command(&mut g, 0, "set", 0, false);
    let f = Frontier::new(&g);
    assert_eq!(symbols(&f, &g, "sh"), vec!["show".to_string(), "shutdown".to_string()]);
    assert!(f.complete(&g, "x").is_empty());
}

#[test]
fn hidden_command_is_not_completed_but_matches() {
    let mut g = Grammar::new();
    command(&mut g, 0, "show", 0, false);
    let secret = command(&mut g, 0, "secret", 0, true);
    let mut f = Frontier::new(&g);
    assert_eq!(symbols(&f, &g, ""), vec!["show".to_string()]);
    assert_eq!(f.advance(&g, "secret").unwrap(), secret);
}

#[test]
fn missing_names_exactly_the_omitted_parameter() {
    let mut g = Grammar::new();
    let copy = command(&mut g, 0, "copy", 0, false);
    let from = g.add_node(flag("from", true, false)).unwrap();
    let to = g.add_node(flag("to", true, false)).unwrap();
    for p in [from, to] {
        g.add_successor(copy, p).unwrap();
        g.add_successor(from, p).unwrap();
        g.add_successor(to, p).unwrap();
        g.declare_parameter(copy, p).unwrap();
    }
    let mut f = Frontier::new(&g);
    f.advance(&g, "copy").unwrap();
    f.advance(&g, "to").unwrap();
    match f.accept(&g) {
        Err(AcceptError::MissingRequiredParameter(syms)) => {
            assert_eq!(syms, vec!["<from>".to_string()])
        }
        other => panic!("expected MissingRequiredParameter, got {:?}", other),
    }
    let mut f = Frontier::new(&g);
    f.advance(&g, "copy").unwrap();
    f.advance(&g, "to").unwrap();
    f.advance(&g, "from").unwrap();
    assert!(f.accept(&g).is_ok());
}

#[test]
fn wrapper_sees_successors_added_later() {
    let mut g = Grammar::new();
    let help = g
        .add_node(GrammarNode::Wrapper(WrapperNode::new("help", None, 0)))
        .unwrap();
    g.add_successor(0, help).unwrap();
    assert_eq!(g.successors(help), &vec![help]);
    let show = command(&mut g, 0, "show", 0, false);
    assert_eq!(g.successors(help), &vec![help, show]);
    assert_eq!(g.successors(help), g.successors(0));
    let mut f = Frontier::new(&g);
    f.advance(&g, "help").unwrap();
    assert_eq!(f.advance(&g, "show").unwrap(), show);
}

#[test]
fn wrapper_takes_no_successors_of_its_own() {
    let mut g = Grammar::new();
    let help = g
        .add_node(GrammarNode::Wrapper(WrapperNode::new("help", None, 0)))
        .unwrap();
    assert_eq!(g.add_successor(help, 0), Err(GrammarError::DelegatedSuccessors));
}

#[test]
fn equal_value_positions_are_ambiguous() {
    let mut g = Grammar::new();
    let put = command(&mut g, 0, "put", 0, false);
    let x = g.add_node(simple("x", false, false)).unwrap();
    let y = g.add_node(simple("y", false, false)).unwrap();
    g.add_successor(put, x).unwrap();
    g.add_successor(put, y).unwrap();
    let mut f = Frontier::new(&g);
    f.advance(&g, "put").unwrap();
    match f.advance(&g, "7") {
        Err(AdvanceError::Ambiguous(names)) => {
            assert_eq!(names, vec!["x".to_string(), "y".to_string()])
        }
        other => panic!("expected Ambiguous, got {:?}", other),
    }
    assert_eq!(f.current, put);
}

#[test]
fn higher_priority_wins_a_tie() {
    let mut g = Grammar::new();
    let list = command(&mut g, 0, "list", 0, false);
    let all = g.add_node(flag("all", false, false)).unwrap();
    let item = g.add_node(simple("item", false, false)).unwrap();
    g.add_successor(list, all).unwrap();
    g.add_successor(list, item).unwrap();
    let mut f = Frontier::new(&g);
    f.advance(&g, "list").unwrap();
    // Both match "all" at the same parameter priority.
    assert!(matches!(f.advance(&g, "all"), Err(AdvanceError::Ambiguous(_))));
    let mut g2 = Grammar::new();
    let list2 = command(&mut g2, 0, "list", 0, false);
    let all2 = g2
        .add_node(GrammarNode::Flag(FlagParameterNode {
            parameter_fields: ParameterNodeFields::new("all", 0, false, None, false, false, None),
        }))
        .unwrap();
    let item2 = g2.add_node(simple("item", false, false)).unwrap();
    g2.add_successor(list2, all2).unwrap();
    g2.add_successor(list2, item2).unwrap();
    let mut f2 = Frontier::new(&g2);
    f2.advance(&g2, "list").unwrap();
    assert_eq!(f2.advance(&g2, "all").unwrap(), all2);
    let mut f3 = Frontier::new(&g2);
    f3.advance(&g2, "list").unwrap();
    assert_eq!(f3.advance(&g2, "other").unwrap(), item2);
}

#[test]
fn empty_token_matches_no_value() {
    let (g, _, _) = set_grammar();
    let mut f = Frontier::new(&g);
    f.advance(&g, "set").unwrap();
    assert!(matches!(f.advance(&g, ""), Err(AdvanceError::NoMatch(_))));
}

#[test]
fn line_without_command_is_incomplete() {
    let (g, _, _) = set_grammar();
    let f = Frontier::new(&g);
    assert!(matches!(f.accept(&g), Err(AcceptError::IncompleteCommand)));
}

#[test]
fn unknown_token_at_root_is_no_match() {
    let (g, _, _) = set_grammar();
    let mut f = Frontier::new(&g);
    match f.advance(&g, "sett") {
        Err(AdvanceError::NoMatch(t)) => assert_eq!(t, "sett"),
        other => panic!("expected NoMatch, got {:?}", other),
    }
    assert_eq!(f.current, 0);
}

#[test]
fn new_command_starts_a_new_context() {
    let mut g = Grammar::new();
    let show = command(&mut g, 0, "show", 0, false);
    let all = g.add_node(flag("all", false, false)).unwrap();
    g.add_successor(show, all).unwrap();
    g.add_successor(all, show).unwrap();
    g.declare_parameter(show, all).unwrap();
    let mut f = Frontier::new(&g);
    f.advance(&g, "show").unwrap();
    f.advance(&g, "all").unwrap();
    f.advance(&g, "show").unwrap();
    assert!(f.visited.is_empty());
    assert_eq!(f.advance(&g, "all").unwrap(), all);
}

#[test]
fn named_parameter_binds_its_value() {
    let mut g = Grammar::new();
    let connect = command(&mut g, 0, "connect", 0, false);
    let value = g
        .add_node(GrammarNode::Named(NamedParameterNode {
            parameter_fields: ParameterNodeFields::new(
                "number",
                PRIORITY_PARAMETER,
                false,
                None,
                true,
                false,
                None,
            ),
        }))
        .unwrap();
    let name = g
        .add_node(GrammarNode::ParameterName(ParameterNameNode::new("port", false, None, false, value)))
        .unwrap();
    g.add_successor(connect, name).unwrap();
    g.add_successor(name, value).unwrap();
    g.declare_parameter(connect, value).unwrap();
    assert_eq!(g.help_symbol(name), "port <number>");
    let mut f = Frontier::new(&g);
    f.advance(&g, "connect").unwrap();
    assert_eq!(symbols(&f, &g, "p"), vec!["port <number>".to_string()]);
    f.advance(&g, "port").unwrap();
    assert_eq!(symbols(&f, &g, "<n"), vec!["<number>".to_string()]);
    f.advance(&g, "80").unwrap();
    let a = f.accept(&g).unwrap();
    assert_eq!(a.bindings.len(), 1);
    assert_eq!(a.bindings[0].parameter, value);
    assert_eq!(a.bindings[0].value, "80");
}

#[test]
fn help_symbols_decorate_parameters() {
    let mut g = Grammar::new();
    let show = command(&mut g, 0, "show", 0, false);
    let one = g.add_node(simple("file", false, false)).unwrap();
    let many = g.add_node(simple("files", false, true)).unwrap();
    assert_eq!(g.help_symbol(show), "show");
    assert_eq!(g.help_symbol(one), "<file>");
    assert_eq!(g.help_symbol(many), "<files>...");
    assert_eq!(g.help_symbol(0), "__root__");
}

#[test]
fn completion_carries_help_text() {
    let mut g = Grammar::new();
    let id = g
        .add_node(GrammarNode::Command(CommandNode::new(
            "quit",
            0,
            false,
            Some("Leave the shell".to_string()),
            None,
        )))
        .unwrap();
    g.add_successor(0, id).unwrap();
    let f = Frontier::new(&g);
    let r = f.complete(&g, "q");
    assert_eq!(r.len(), 1);
    assert_eq!(r[0].symbol, "quit");
    assert_eq!(r[0].help, Some("Leave the shell".to_string()));
}

#[test]
fn builder_errors() {
    let mut g = Grammar::new();
    assert_eq!(
        g.add_node(GrammarNode::Wrapper(WrapperNode::new("w", None, 5))).err(),
        Some(GrammarError::InvalidNode)
    );
    assert_eq!(g.len(), 1);
    assert_eq!(g.add_successor(0, 3), Err(GrammarError::UnknownNode));
    let p = g.add_node(flag("f", false, false)).unwrap();
    assert_eq!(g.declare_parameter(p, p), Err(GrammarError::NotACommand));
    let c = command(&mut g, 0, "c", 0, false);
    assert_eq!(g.declare_parameter(c, c), Err(GrammarError::NotAParameter));
    assert_eq!(g.declare_parameter(c, 99), Err(GrammarError::UnknownNode));
    assert_eq!(g.declare_parameter(c, p), Ok(()));
}

#[test]
fn string_comparisons() {
    assert!(str_eq("abc", "abc"));
    assert!(!str_eq("abc", "abd"));
    assert!(!str_eq("ab", "abc"));
    assert!(starts_with("shutdown", "shut"));
    assert!(starts_with("x", ""));
    assert!(!starts_with("sh", "shut"));
    assert!(str_lex_le("a", "b"));
    assert!(str_lex_le("ab", "abc"));
    assert!(!str_lex_le("b", "a"));
    assert!(str_lex_le("", ""));
}
