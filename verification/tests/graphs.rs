use witx::graph::find_cycle;

fn is_cycle(graph: &Vec<Vec<usize>>, cycle: &Vec<usize>) -> bool {
    if cycle.is_empty() {
        return false;
    }
    for i in 0..cycle.len() {
        let next = cycle[(i + 1) % cycle.len()];
        if !graph[cycle[i]].contains(&next) {
            return false;
        }
    }
    true
}

#[test]
fn graph_without_nodes_has_no_cycle() {
    assert_eq!(find_cycle(&Vec::new()), None);
}

#[test]
fn graph_without_edges_has_no_cycle() {
    assert_eq!(find_cycle(&vec![vec![], vec![], vec![]]), None);
}

#[test]
fn tree_and_diamond_have_no_cycle() {
    assert_eq!(find_cycle(&vec![vec![1, 2], vec![3], vec![3], vec![]]), None);
    assert_eq!(find_cycle(&vec![vec![], vec![0], vec![1, 0], vec![2, 1, 0, 0]]), None);
}

#[test]
fn loop_on_one_node_is_a_cycle() {
    assert_eq!(find_cycle(&vec![vec![0]]), Some(vec![0]));
    assert_eq!(find_cycle(&vec![vec![], vec![2], vec![2]]), Some(vec![2]));
}

#[test]
fn cycle_is_found_behind_a_tail() {
    let graph = vec![vec![1], vec![2], vec![3], vec![1], vec![0]];
    let cycle = find_cycle(&graph).expect("1 -> 2 -> 3 -> 1");
    assert!(is_cycle(&graph, &cycle));
    assert_eq!(cycle, vec![1, 2, 3]);
}

#[test]
fn cycle_is_found_among_many_edges() {
    let graph = vec![vec![1, 2, 3], vec![4], vec![4], vec![4], vec![5, 6], vec![], vec![7], vec![2]];
    let cycle = find_cycle(&graph).expect("2 -> 4 -> 6 -> 7 -> 2");
    assert!(is_cycle(&graph, &cycle));
    let mut sorted = cycle.clone();
    sorted.sort();
    assert_eq!(sorted, vec![2, 4, 6, 7]);
}

#[test]
fn long_chain_has_no_cycle_until_it_is_closed() {
    let mut graph: Vec<Vec<usize>> = (0..200).map(|i| if i + 1 < 200 { vec![i + 1] } else { vec![] }).collect();
    assert_eq!(find_cycle(&graph), None);
    graph[199].push(0);
    let cycle = find_cycle(&graph).expect("the chain is closed");
    assert_eq!(cycle.len(), 200);
    assert!(is_cycle(&graph, &cycle));
}
