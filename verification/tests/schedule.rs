//! The graph of submission sets and render sets.

use bevy_ecs::component::ComponentDescriptor;
use bevy_ecs::prelude::World;
use pumicite::graph::{
    add_edge_if_acyclic, ancestor_sets, has_path, Node, NodeGraph, SystemGraph,
};
use pumicite::grouping::{add_render_grouping_edges, render_stages};
use pumicite::pass::{
    build, collect_descendant_systems, collect_descendant_systems_flat, dependency_source_systems,
    dependency_target_systems, missing_ending_systems, missing_meta_systems,
    split_pipe_system_name, validate_render_set_parent, RenderSetMetaSystems, RenderSetParentError,
    ScheduleSets,
};
use pumicite::plugin::{SubmissionSetConfig, SubmissionSetRegistry};
use pumicite::queue::QueueConfiguration;
use pumicite::device::DeviceQueueRef;
use std::collections::{BTreeMap, HashMap, HashSet};

/// The key with number `i`.
fn key(i: u64) -> u64 {
    (1u64 << 32) | i
}

fn set(i: u64) -> Node {
    Node::SystemSet(key(i))
}

fn system(i: u64) -> Node {
    Node::System(key(i))
}

fn system_graph(edges: &[(u64, u64)]) -> SystemGraph {
    let mut graph = SystemGraph::new();
    for (a, b) in edges {
        graph.add_edge(key(*a), key(*b));
    }
    graph
}

fn node_graph(edges: &[(Node, Node)]) -> NodeGraph {
    let mut graph = NodeGraph::new();
    for (a, b) in edges {
        graph.add_edge(*a, *b);
    }
    graph
}

fn sorted(mut list: Vec<u64>) -> Vec<u64> {
    list.sort();
    list
}

fn keys(list: &[u64]) -> Vec<u64> {
    list.iter().map(|i| key(*i)).collect()
}

#[test]
fn splits_pipe_system_names_with_generic_commas() {
    let name = "Pipe(<bevy_app::app::App as bevy_pumicite::plugin::PumiciteApp>::add_render_set<(bevy_ecs::system::function_system::IsFunctionSystem, fn(bevy_pumicite::system::SubmissionState<'_>, bevy_ecs::system::query::Query<'_, '_, (&mut bevy_pumicite::swapchain::SwapchainImage, &mut gltf::GBuffer), bevy_ecs::query::filter::With<bevy_window::window::PrimaryWindow>>)), gltf::MainRenderPass, gltf::start_main_render_pass>::{{closure}}, gltf::start_main_render_pass)";
    let (first, second) = split_pipe_system_name(name).unwrap();

    assert_eq!(
        first,
        "<bevy_app::app::App as bevy_pumicite::plugin::PumiciteApp>::add_render_set<(bevy_ecs::system::function_system::IsFunctionSystem, fn(bevy_pumicite::system::SubmissionState<'_>, bevy_ecs::system::query::Query<'_, '_, (&mut bevy_pumicite::swapchain::SwapchainImage, &mut gltf::GBuffer), bevy_ecs::query::filter::With<bevy_window::window::PrimaryWindow>>)), gltf::MainRenderPass, gltf::start_main_render_pass>::{{closure}}"
    );
    assert_eq!(second, "gltf::start_main_render_pass");
}

#[test]
fn other_names_are_no_pipes() {
    assert_eq!(split_pipe_system_name("app::update"), None);
    assert_eq!(split_pipe_system_name("Pipe(a, b"), None);
    assert_eq!(split_pipe_system_name("Pipe(a<b, c>)"), None);
    assert_eq!(split_pipe_system_name("Pipe()"), None);
    assert_eq!(split_pipe_system_name("Pipe(  a ,  b )"), Some(("a", "b")));
    assert_eq!(split_pipe_system_name("Pipe(a, b, c)"), Some(("a", "b, c")));
}

const SUBMISSION_SET_A: u64 = 1;
const SUBMISSION_SET_B: u64 = 2;
const SWAPCHAIN_LIKE_SET: u64 = 3;
const RENDER_SET_A: u64 = 4;
const CONFIG_SYSTEM: u64 = 11;
const SETUP_SYSTEM: u64 = 12;
const RENDER_SYSTEM: u64 = 13;
const PRESENT_SYSTEM: u64 = 14;
const PRELUDE_A: u64 = 21;
const SUBMISSION_A: u64 = 22;
const PRELUDE_B: u64 = 23;
const SUBMISSION_B: u64 = 24;
const ENDING: u64 = 31;

/// A queue configuration with one queue, for purpose 7.
fn dummy_queue() -> QueueConfiguration {
    let mut queues = QueueConfiguration::new();
    let queue = DeviceQueueRef { family: 0, index: 0, flags: 1 };
    queues.register_queue(7, 5, queue, 0, "DummyQueue", "DummyQueue");
    queues
}

fn two_sets() -> SubmissionSetRegistry {
    let queues = dummy_queue();
    let mut registry = SubmissionSetRegistry::new();
    registry.add_submission_set(&queues, 7, SUBMISSION_SET_A, SubmissionSetConfig::default());
    registry.add_submission_set(&queues, 7, SUBMISSION_SET_B, SubmissionSetConfig::default());
    registry
}

fn example_sets() -> ScheduleSets {
    let mut metas: HashMap<u64, RenderSetMetaSystems> = HashMap::new();
    metas.insert(
        key(SUBMISSION_SET_A),
        RenderSetMetaSystems {
            prelude: key(PRELUDE_A),
            submission: key(SUBMISSION_A),
            state_id: 1,
        },
    );
    metas.insert(
        key(SUBMISSION_SET_B),
        RenderSetMetaSystems {
            prelude: key(PRELUDE_B),
            submission: key(SUBMISSION_B),
            state_id: 2,
        },
    );
    let mut endings: BTreeMap<u64, u64> = BTreeMap::new();
    endings.insert(key(RENDER_SET_A), key(ENDING));
    ScheduleSets {
        hierarchy: node_graph(&[
            (set(SWAPCHAIN_LIKE_SET), set(SUBMISSION_SET_A)),
            (set(SUBMISSION_SET_A), set(RENDER_SET_A)),
            (set(SUBMISSION_SET_A), system(SETUP_SYSTEM)),
            (set(SUBMISSION_SET_A), system(PRELUDE_A)),
            (set(SUBMISSION_SET_A), system(SUBMISSION_A)),
            (set(SUBMISSION_SET_B), system(PRELUDE_B)),
            (set(SUBMISSION_SET_B), system(SUBMISSION_B)),
            (set(RENDER_SET_A), system(CONFIG_SYSTEM)),
            (set(RENDER_SET_A), system(RENDER_SYSTEM)),
        ]),
        dependency: node_graph(&[
            (set(SUBMISSION_SET_B), set(SUBMISSION_SET_A)),
            (set(SWAPCHAIN_LIKE_SET), system(PRESENT_SYSTEM)),
            (system(SETUP_SYSTEM), set(RENDER_SET_A)),
            (system(CONFIG_SYSTEM), system(RENDER_SYSTEM)),
        ]),
        submission_sets_to_meta_systems: metas,
        render_sets_to_ending_systems: endings,
    }
}

#[test]
fn builds_submission_and_render_set_graph() {
    let mut registry = two_sets();
    assert_eq!(registry.submission_sets_to_queue[&SUBMISSION_SET_A].0, 5);
    assert_eq!(registry.submission_sets_to_queue[&SUBMISSION_SET_B].0, 5);

    let existing_systems: Vec<u64> = Vec::new();
    let systems = keys(&[CONFIG_SYSTEM]);
    let added_systems: Vec<u64> =
        systems.iter().copied().filter(|key| !existing_systems.contains(key)).collect();
    assert_eq!(added_systems.len(), 1);
    registry.add_render_set(RENDER_SET_A, &existing_systems, &systems);
    let config_key = registry.render_sets_to_systems[&RENDER_SET_A];
    assert_eq!(config_key, added_systems[0]);

    let sets = example_sets();
    let mut graph = system_graph(&[
        (SETUP_SYSTEM, CONFIG_SYSTEM),
        (SETUP_SYSTEM, RENDER_SYSTEM),
        (CONFIG_SYSTEM, RENDER_SYSTEM),
        (SETUP_SYSTEM, PRESENT_SYSTEM),
        (CONFIG_SYSTEM, PRESENT_SYSTEM),
        (RENDER_SYSTEM, PRESENT_SYSTEM),
    ]);
    let users = build(
        &sets,
        &mut graph,
        &[Some(key(SUBMISSION_SET_A)), Some(key(SUBMISSION_SET_B))],
        &[(Some(key(RENDER_SET_A)), config_key)],
    )
    .unwrap();

    // The whole order, and no cycle.
    let order = [
        PRELUDE_B,
        SUBMISSION_B,
        PRELUDE_A,
        SETUP_SYSTEM,
        CONFIG_SYSTEM,
        RENDER_SYSTEM,
        ENDING,
        SUBMISSION_A,
        PRESENT_SYSTEM,
    ];
    for i in 0..order.len() {
        for j in 0..order.len() {
            assert_eq!(has_path(&graph, key(order[i]), key(order[j])), i <= j, "{i} {j}");
        }
    }
    assert_eq!(users.len(), 2);
    let mut of_a = sorted(users[0].clone());
    of_a.dedup();
    assert_eq!(of_a, keys(&[CONFIG_SYSTEM, SETUP_SYSTEM, RENDER_SYSTEM, ENDING]));
    assert!(users[1].is_empty());
}


struct Unused;

impl bevy_ecs::prelude::Resource for Unused {}

#[test]
fn submission_sets_use_distinct_state_resources() {
    let registry = two_sets();
    let mut world = World::new();
    let registry_component_id =
        world.register_component_with_descriptor(ComponentDescriptor::new_resource::<Unused>());
    let mut metas: HashMap<u64, RenderSetMetaSystems> = HashMap::new();
    let listed: Vec<Option<u64>> = vec![Some(key(SUBMISSION_SET_A)), Some(key(SUBMISSION_SET_B))];
    assert_eq!(listed.len(), registry.submission_sets_to_queue.len());
    let missing = missing_meta_systems(&listed, &metas);
    assert_eq!(missing, keys(&[SUBMISSION_SET_A, SUBMISSION_SET_B]));
    for (i, set) in missing.iter().enumerate() {
        let state = world
            .register_component_with_descriptor(ComponentDescriptor::new_resource::<Unused>());
        metas.insert(
            *set,
            RenderSetMetaSystems {
                prelude: key(40 + 2 * i as u64),
                submission: key(41 + 2 * i as u64),
                state_id: state.index(),
            },
        );
    }
    assert!(missing_meta_systems(&listed, &metas).is_empty());
    // A system in each of the two sets.
    let sets = ScheduleSets {
        hierarchy: node_graph(&[
            (set(SUBMISSION_SET_A), system(SETUP_SYSTEM)),
            (set(SUBMISSION_SET_B), system(RENDER_SYSTEM)),
        ]),
        dependency: node_graph(&[]),
        submission_sets_to_meta_systems: metas.clone(),
        render_sets_to_ending_systems: BTreeMap::new(),
    };
    let mut graph = SystemGraph::new();
    let users = build(&sets, &mut graph, &listed, &[]);
    assert!(users.is_ok());
    assert_eq!(users.unwrap(), vec![keys(&[SETUP_SYSTEM]), keys(&[RENDER_SYSTEM])]);
    let state_a = metas[&key(SUBMISSION_SET_A)].state_id;
    let state_b = metas[&key(SUBMISSION_SET_B)].state_id;
    assert_ne!(state_a, state_b);
    assert_ne!(state_a, registry_component_id.index());
    assert_ne!(state_b, registry_component_id.index());
}

#[test]
fn only_new_sets_get_systems() {
    let mut endings: BTreeMap<u64, u64> = BTreeMap::new();
    endings.insert(1, 9);
    let list = [Some(2), None, Some(1), Some(3), Some(2)];
    assert_eq!(missing_ending_systems(&list, &endings), vec![2, 3]);
    assert_eq!(
        missing_meta_systems(&list, &HashMap::new()),
        vec![2, 1, 3]
    );
}

#[test]
fn render_sets_are_in_one_submission_set() {
    let hierarchy = node_graph(&[
        (set(1), set(4)),
        (set(2), set(4)),
        (set(3), set(5)),
        (set(1), set(6)),
    ]);
    let submission_sets = [Some(key(1)), Some(key(2)), None];
    assert!(validate_render_set_parent(&hierarchy, key(6), &submission_sets).is_ok());
    let twice = validate_render_set_parent(&hierarchy, key(4), &submission_sets);
    assert!(matches!(twice, Err(RenderSetParentError { render_set, count: 2 }) if render_set == key(4)));
    let never = validate_render_set_parent(&hierarchy, key(5), &submission_sets);
    assert!(matches!(never, Err(RenderSetParentError { render_set, count: 0 }) if render_set == key(5)));
}

#[test]
fn misplaced_render_sets_stop_the_build() {
    let mut sets = example_sets();
    sets.hierarchy.add_edge(set(SUBMISSION_SET_B), set(RENDER_SET_A));
    let mut graph = SystemGraph::new();
    let r = build(
        &sets,
        &mut graph,
        &[Some(key(SUBMISSION_SET_A)), Some(key(SUBMISSION_SET_B))],
        &[(Some(key(RENDER_SET_A)), key(CONFIG_SYSTEM))],
    );
    assert!(matches!(r, Err(RenderSetParentError { render_set, count: 2 }) if render_set == key(RENDER_SET_A)));
}

#[test]
fn members_are_told_apart() {
    let sets = example_sets();
    let mut render: Vec<u64> = Vec::new();
    let mut nonrender: Vec<u64> = Vec::new();
    let mut skipped: HashSet<u64> = HashSet::new();
    skipped.insert(key(PRELUDE_A));
    skipped.insert(key(SUBMISSION_A));
    collect_descendant_systems(
        &sets.hierarchy,
        set(SUBMISSION_SET_A),
        &sets.render_sets_to_ending_systems,
        false,
        &skipped,
        &mut render,
        &mut nonrender,
    );
    assert_eq!(sorted(render), keys(&[CONFIG_SYSTEM, RENDER_SYSTEM, ENDING]));
    assert_eq!(nonrender, keys(&[SETUP_SYSTEM]));
    let all = collect_descendant_systems_flat(
        &sets.hierarchy,
        set(SWAPCHAIN_LIKE_SET),
        &sets.render_sets_to_ending_systems,
        false,
        &HashSet::new(),
    );
    assert_eq!(
        sorted(all),
        keys(&[CONFIG_SYSTEM, SETUP_SYSTEM, RENDER_SYSTEM, PRELUDE_A, SUBMISSION_A, ENDING])
    );
    assert_eq!(dependency_source_systems(&sets, set(SUBMISSION_SET_A)), keys(&[SUBMISSION_A]));
    assert_eq!(dependency_target_systems(&sets, set(SUBMISSION_SET_A)), keys(&[PRELUDE_A]));
    assert_eq!(dependency_target_systems(&sets, system(99)), keys(&[99]));
    assert_eq!(
        sorted(dependency_source_systems(&sets, set(RENDER_SET_A))),
        keys(&[CONFIG_SYSTEM, RENDER_SYSTEM])
    );
}

#[test]
fn sets_have_ancestors() {
    let hierarchy = node_graph(&[
        (set(1), set(2)),
        (set(2), set(3)),
        (set(4), set(3)),
        (set(3), system(5)),
        (set(6), set(7)),
    ]);
    assert_eq!(sorted(ancestor_sets(&hierarchy, key(3))), keys(&[1, 2, 4]));
    assert!(ancestor_sets(&hierarchy, key(1)).is_empty());
}

#[test]
fn edges_close_no_cycle() {
    let mut graph = system_graph(&[(1, 2), (2, 3), (4, 5)]);
    assert!(has_path(&graph, key(1), key(3)));
    assert!(!has_path(&graph, key(3), key(1)));
    assert!(!has_path(&graph, key(1), key(5)));
    add_edge_if_acyclic(&mut graph, key(3), key(1));
    add_edge_if_acyclic(&mut graph, key(2), key(2));
    assert_eq!(graph.edges().len(), 3);
    add_edge_if_acyclic(&mut graph, key(3), key(4));
    let mut edges = graph.edges();
    edges.sort();
    assert_eq!(
        edges,
        vec![
            (key(1), key(2)),
            (key(2), key(3)),
            (key(3), key(4)),
            (key(4), key(5)),
        ]
    );
}

#[test]
fn stages_alternate() {
    // A render system, then work that waits for it, then a render system that
    // waits for the work; one more of each waits for nothing.
    let graph = system_graph(&[(1, 11), (11, 2)]);
    let stages = render_stages(&graph, &keys(&[1, 2, 3]), &keys(&[11, 12]));
    let stages: Vec<Vec<u64>> = stages.into_iter().map(sorted).collect();
    let all: usize = stages.iter().map(|s| s.len()).sum();
    assert_eq!(all, 5);
    let place = |i: u64| stages.iter().position(|s| s.contains(&key(i))).unwrap();
    assert!(place(1) < place(11));
    assert!(place(11) < place(2));
    assert_eq!(place(3), place(1));

    let mut grouped = system_graph(&[(1, 11), (11, 2)]);
    add_render_grouping_edges(&mut grouped, &keys(&[1, 2, 3]), &keys(&[11, 12]));
    for (a, b) in [(1, 11), (11, 2), (3, 11)] {
        assert!(has_path(&grouped, key(a), key(b)));
        assert!(!has_path(&grouped, key(b), key(a)));
    }
    for (a, b) in grouped.edges() {
        assert!(!has_path(&grouped, b, a));
    }

    let mut alone = system_graph(&[(11, 12)]);
    add_render_grouping_edges(&mut alone, &[], &keys(&[11, 12]));
    assert_eq!(alone.edges(), vec![(key(11), key(12))]);
}
