use neonia_swarm::swarm::{bearer_header, mcp_base_url, mcp_tools_url};

#[test]
fn tool_server_addresses() {
    assert_eq!(mcp_base_url(None), "https://mcp.neonia.io/mcp");
    assert_eq!(mcp_base_url(Some("http://localhost:9/mcp".to_string())), "http://localhost:9/mcp");
    assert_eq!(
        mcp_tools_url("https://mcp.neonia.io/mcp"),
        "https://mcp.neonia.io/mcp?tools=neo_util_svg_generator,neo_util_svg_layout_validator,neo_util_pathfinder,neo_util_rng"
    );
    assert_eq!(bearer_header("k"), "Bearer k");
}
