pub mod node_id;
