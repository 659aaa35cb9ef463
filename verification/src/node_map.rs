//! The road map: nodes, directed edges, and the queries that validation and
//! movement make on them.
use vstd::prelude::*;
use vstd::string::*;
use crate::search::{
    first_index, first_match, any_match, lemma_first_index_found, lemma_first_index_absent,
};
use crate::text::{natural_text, natural_string};
use crate::types::{Node, NodeID, NeighbourRelationship, EdgeRestriction, RestrictionType};

verus! {

/// Why a query or a change of the map failed.
#[derive(Clone, Copy, PartialEq, Eq, Debug, Structural)]
pub enum MapError {
    /// The map has no node with this id.
    NodeNotFound(NodeID),
    /// The map has no edge between these nodes, in this direction.
    EdgeNotFound { from: NodeID, to: NodeID },
    /// The edge between these nodes may not be changed.
    EdgeNotModifiable { from: NodeID, to: NodeID },
}

impl MapError {
    /// The reason in words.
    pub open spec fn text(self) -> Seq<char> {
        match self {
            MapError::NodeNotFound(id) => "There is no node with the given ID: "@ + natural_text(
                id as nat,
            ),
            MapError::EdgeNotFound { from, to } => "The node "@ + natural_text(from as nat)
                + " does not have a neighbour with id "@ + natural_text(to as nat) + "!"@,
            MapError::EdgeNotModifiable { from, to } => "The edge between node "@ + natural_text(
                from as nat,
            ) + " and node "@ + natural_text(to as nat) + " is not modifiable!"@,
        }
    }

    /// The reason in words.
    pub fn message(&self) -> (s: String)
        ensures
            s@ == self.text(),
    {
        match self {
            MapError::NodeNotFound(id) => {
                let mut s = String::from_str("There is no node with the given ID: ");
                s.append(natural_string(*id as u64).as_str());
                s
            },
            MapError::EdgeNotFound { from, to } => {
                let mut s = String::from_str("The node ");
                s.append(natural_string(*from as u64).as_str());
                s.append(" does not have a neighbour with id ");
                s.append(natural_string(*to as u64).as_str());
                s.append("!");
                s
            },
            MapError::EdgeNotModifiable { from, to } => {
                let mut s = String::from_str("The edge between node ");
                s.append(natural_string(*from as u64).as_str());
                s.append(" and node ");
                s.append(natural_string(*to as u64).as_str());
                s.append(" is not modifiable!");
                s
            },
        }
    }
}

/// The map of one game.
#[derive(Debug, PartialEq, Eq)]
pub struct NodeMap {
    pub nodes: Vec<Node>,
    pub edges: Vec<NeighbourRelationship>,
}

/// The map as sequences of nodes and edges.
pub struct MapModel {
    pub nodes: Seq<Node>,
    pub edges: Seq<NeighbourRelationship>,
}

/// Nodes with the given id.
pub open spec fn node_with_id(id: NodeID) -> spec_fn(Node) -> bool {
    |n: Node| n.id == id
}

/// Edges that leave the given node.
pub open spec fn leaving(from: NodeID) -> spec_fn(NeighbourRelationship) -> bool {
    |e: NeighbourRelationship| e.from == from
}

/// Edges that arrive at the given node.
pub open spec fn leading_to(to: NodeID) -> spec_fn(NeighbourRelationship) -> bool {
    |e: NeighbourRelationship| e.to == to
}

/// Edges from one given node to another.
pub open spec fn connecting(from: NodeID, to: NodeID) -> spec_fn(NeighbourRelationship) -> bool {
    |e: NeighbourRelationship| e.from == from && e.to == to
}

/// Park-and-ride edges that arrive at the given node.
pub open spec fn park_and_ride_to(to: NodeID) -> spec_fn(NeighbourRelationship) -> bool {
    |e: NeighbourRelationship| e.restriction == Some(RestrictionType::ParkAndRide) && e.to == to
}

/// Rail edges that arrive at the given node.
pub open spec fn rail_to(to: NodeID) -> spec_fn(NeighbourRelationship) -> bool {
    |e: NeighbourRelationship| e.is_connected_through_rail && e.to == to
}

impl MapModel {
    /// The first node with the given id.
    pub open spec fn node(self, id: NodeID) -> Option<Node> {
        first_match(self.nodes, node_with_id(id))
    }

    /// The edges that leave a node, in the order of the map.
    pub open spec fn edges_from(self, id: NodeID) -> Seq<NeighbourRelationship> {
        self.edges.filter(leaving(id))
    }

    /// The edges that leave a node, or `None` where no edge leaves it.
    pub open spec fn neighbours(self, id: NodeID) -> Option<Seq<NeighbourRelationship>> {
        if self.edges_from(id).len() == 0 {
            None
        } else {
            Some(self.edges_from(id))
        }
    }

    /// The first edge from `from` to `to`.
    pub open spec fn edge(self, from: NodeID, to: NodeID) -> Option<NeighbourRelationship> {
        first_match(self.edges, connecting(from, to))
    }

    /// Whether an edge leads from `from` to `to`; an error where `from` is no node.
    pub open spec fn are_neighbours(self, from: NodeID, to: NodeID) -> Result<bool, MapError> {
        if self.node(from) is None {
            Err(MapError::NodeNotFound(from))
        } else {
            Ok(self.edge(from, to) is Some)
        }
    }

    /// The restriction that an edge carries after a change: none after a
    /// deletion, the requested one otherwise.
    pub open spec fn changed_edge(
        edge: NeighbourRelationship,
        change: EdgeRestriction,
    ) -> NeighbourRelationship {
        NeighbourRelationship {
            restriction: if change.delete {
                None
            } else {
                Some(change.edge_restriction)
            },
            ..edge
        }
    }

    /// The map after a change of an edge's restriction. The change applies to
    /// the first edge from `node_one` to `node_two`, which must be modifiable.
    pub open spec fn with_restriction(self, change: EdgeRestriction) -> Result<MapModel, MapError> {
        match first_index(self.edges, connecting(change.node_one, change.node_two)) {
            None => Err(MapError::EdgeNotFound { from: change.node_one, to: change.node_two }),
            Some(i) => if !self.edges[i].is_modifiable {
                Err(MapError::EdgeNotModifiable { from: change.node_one, to: change.node_two })
            } else {
                Ok(
                    MapModel {
                        edges: self.edges.update(i, Self::changed_edge(self.edges[i], change)),
                        ..self
                    },
                )
            },
        }
    }
}

impl View for NodeMap {
    type V = MapModel;

    open spec fn view(&self) -> MapModel {
        MapModel { nodes: self.nodes@, edges: self.edges@ }
    }
}

impl Clone for NodeMap {
    fn clone(&self) -> (copy: Self)
        ensures
            copy@ == self@,
    {
        NodeMap { nodes: self.nodes.clone(), edges: self.edges.clone() }
    }
}

/// The first edge of a list that arrives at `to`.
pub fn find_neighbour(neighbours: &Vec<NeighbourRelationship>, to: NodeID) -> (found: Option<
    NeighbourRelationship,
>)
    ensures
        found == first_match(neighbours@, leading_to(to)),
{
    let mut i: usize = 0;
    while i < neighbours.len()
        invariant
            i <= neighbours.len(),
            forall|j: int| 0 <= j < i ==> !leading_to(to)(#[trigger] neighbours@[j]),
        decreases neighbours.len() - i,
    {
        if neighbours[i].to == to {
            proof {
                lemma_first_index_found(neighbours@, leading_to(to), i as int);
            }
            return Some(neighbours[i]);
        }
        i += 1;
    }
    proof {
        lemma_first_index_absent(neighbours@, leading_to(to));
    }
    None
}

/// Whether a list holds a park-and-ride edge that arrives at `to`.
pub fn has_park_and_ride_to(neighbours: &Vec<NeighbourRelationship>, to: NodeID) -> (found: bool)
    ensures
        found == any_match(neighbours@, park_and_ride_to(to)),
{
    let mut i: usize = 0;
    while i < neighbours.len()
        invariant
            i <= neighbours.len(),
            forall|j: int| 0 <= j < i ==> !park_and_ride_to(to)(#[trigger] neighbours@[j]),
        decreases neighbours.len() - i,
    {
        let e = neighbours[i];
        let restricted = match e.restriction {
            Some(RestrictionType::ParkAndRide) => true,
            _ => false,
        };
        if restricted && e.to == to {
            proof {
                lemma_first_index_found(neighbours@, park_and_ride_to(to), i as int);
            }
            return true;
        }
        i += 1;
    }
    proof {
        lemma_first_index_absent(neighbours@, park_and_ride_to(to));
    }
    false
}

/// Whether a list holds a rail edge that arrives at `to`.
pub fn has_rail_to(neighbours: &Vec<NeighbourRelationship>, to: NodeID) -> (found: bool)
    ensures
        found == any_match(neighbours@, rail_to(to)),
{
    let mut i: usize = 0;
    while i < neighbours.len()
        invariant
            i <= neighbours.len(),
            forall|j: int| 0 <= j < i ==> !rail_to(to)(#[trigger] neighbours@[j]),
        decreases neighbours.len() - i,
    {
        let e = neighbours[i];
        if e.is_connected_through_rail && e.to == to {
            proof {
                lemma_first_index_found(neighbours@, rail_to(to), i as int);
            }
            return true;
        }
        i += 1;
    }
    proof {
        lemma_first_index_absent(neighbours@, rail_to(to));
    }
    false
}

impl NodeMap {
    /// A map of the given nodes and edges.
    pub fn new(nodes: Vec<Node>, edges: Vec<NeighbourRelationship>) -> (map: NodeMap)
        ensures
            map@ == (MapModel { nodes: nodes@, edges: edges@ }),
    {
        NodeMap { nodes, edges }
    }

    /// The first node with the given id.
    pub fn get_node_by_id(&self, id: NodeID) -> (found: Result<Node, MapError>)
        ensures
            found == match self@.node(id) {
                Some(node) => Ok::<Node, MapError>(node),
                None => Err(MapError::NodeNotFound(id)),
            },
    {
        let mut i: usize = 0;
        while i < self.nodes.len()
            invariant
                i <= self.nodes.len(),
                forall|j: int| 0 <= j < i ==> !node_with_id(id)(#[trigger] self.nodes@[j]),
            decreases self.nodes.len() - i,
        {
            if self.nodes[i].id == id {
                proof {
                    lemma_first_index_found(self.nodes@, node_with_id(id), i as int);
                }
                return Ok(self.nodes[i]);
            }
            i += 1;
        }
        proof {
            lemma_first_index_absent(self.nodes@, node_with_id(id));
        }
        Err(MapError::NodeNotFound(id))
    }

    /// Position of the first edge from `from` to `to`.
    pub fn find_edge_index(&self, from: NodeID, to: NodeID) -> (found: Option<usize>)
        ensures
            match found {
                Some(i) => first_index(self@.edges, connecting(from, to)) == Some(i as int) && i
                    < self.edges.len(),
                None => first_index(self@.edges, connecting(from, to)) is None,
            },
    {
        let mut i: usize = 0;
        while i < self.edges.len()
            invariant
                i <= self.edges.len(),
                forall|j: int| 0 <= j < i ==> !connecting(from, to)(#[trigger] self.edges@[j]),
            decreases self.edges.len() - i,
        {
            if self.edges[i].from == from && self.edges[i].to == to {
                proof {
                    lemma_first_index_found(self.edges@, connecting(from, to), i as int);
                }
                return Some(i);
            }
            i += 1;
        }
        proof {
            lemma_first_index_absent(self.edges@, connecting(from, to));
        }
        None
    }

    /// The first edge from `from` to `to`.
    pub fn get_edge(&self, from: NodeID, to: NodeID) -> (found: Option<NeighbourRelationship>)
        ensures
            found == self@.edge(from, to),
    {
        match self.find_edge_index(from, to) {
            Some(i) => Some(self.edges[i]),
            None => None,
        }
    }

    /// The edges that leave a node, in the order of the map; `None` where no
    /// edge leaves it.
    pub fn get_neighbour_relationships_of_node_with_id(&self, id: NodeID) -> (found: Option<
        Vec<NeighbourRelationship>,
    >)
        ensures
            match found {
                Some(list) => self@.neighbours(id) == Some(list@),
                None => self@.neighbours(id) is None,
            },
    {
        let mut list: Vec<NeighbourRelationship> = Vec::new();
        let mut i: usize = 0;
        proof {
            reveal(Seq::filter);
            assert(self.edges@.take(0).filter(leaving(id)) =~= Seq::empty());
        }
        while i < self.edges.len()
            invariant
                i <= self.edges.len(),
                list@ == self.edges@.take(i as int).filter(leaving(id)),
            decreases self.edges.len() - i,
        {
            let e = self.edges[i];
            proof {
                reveal(Seq::filter);
                let longer = self.edges@.take(i as int + 1);
                assert(longer.drop_last() =~= self.edges@.take(i as int));
                assert(longer.last() == e);
            }
            if e.from == id {
                list.push(e);
            }
            i += 1;
        }
        proof {
            assert(self.edges@.take(i as int) =~= self.edges@);
        }
        if list.len() == 0 {
            None
        } else {
            Some(list)
        }
    }

    /// Whether an edge leads from `from` to `to`; an error where `from` is no node.
    pub fn are_nodes_neighbours(&self, from: NodeID, to: NodeID) -> (answer: Result<bool, MapError>)
        ensures
            answer == self@.are_neighbours(from, to),
    {
        match self.get_node_by_id(from) {
            Err(e) => Err(e),
            Ok(_) => Ok(self.get_edge(from, to).is_some()),
        }
    }

    /// Sets or clears the restriction on the first edge from `node_one` to
    /// `node_two`. Fails, and changes nothing, where there is no such edge or
    /// the edge may not be changed.
    pub fn apply_edge_restriction(&mut self, change: EdgeRestriction) -> (done: Result<
        (),
        MapError,
    >)
        ensures
            match old(self)@.with_restriction(change) {
                Ok(map) => done is Ok && final(self)@ == map,
                Err(e) => done == Err::<(), MapError>(e) && final(self)@ == old(self)@,
            },
    {
        match self.find_edge_index(change.node_one, change.node_two) {
            None => Err(MapError::EdgeNotFound { from: change.node_one, to: change.node_two }),
            Some(i) => {
                let edge = self.edges[i];
                if !edge.is_modifiable {
                    return Err(
                        MapError::EdgeNotModifiable {
                            from: change.node_one,
                            to: change.node_two,
                        },
                    );
                }
                let restriction = if change.delete {
                    None
                } else {
                    Some(change.edge_restriction)
                };
                let changed = NeighbourRelationship {
                    from: edge.from,
                    to: edge.to,
                    neighbourhood: edge.neighbourhood,
                    movement_cost: edge.movement_cost,
                    is_connected_through_rail: edge.is_connected_through_rail,
                    is_modifiable: edge.is_modifiable,
                    restriction,
                };
                self.edges.set(i, changed);
                Ok(())
            },
        }
    }
}

} // verus!
