use multiplexer::integrations::{filter_tiles, integration_tiles};
use multiplexer::widgets::Tone;
use multiplexer::workspace::{McpLife, McpRow, Workspace};

#[test]
fn tiles_include_active_model() {
    let ws = Workspace::new("p", "grok");
    let tiles = integration_tiles(&ws);
    assert!(tiles.iter().any(|t| t.id == "model:grok"));
    assert_eq!(
        tiles
            .iter()
            .find(|t| t.id == "model:grok")
            .unwrap()
            .badge
            .text,
        "active"
    );
}

#[test]
fn filter_tiles_narrows() {
    let mut ws = Workspace::new("p", "grok");
    ws.mcp.push(McpRow {
        name: "linear".into(),
        command: "npx".into(),
        transport: "stdio".into(),
        state: McpLife::Stopped,
    });
    let tiles = integration_tiles(&ws);
    let hit = filter_tiles(&tiles, "lin");
    assert_eq!(hit.len(), 1);
    assert_eq!(hit[0].title, "linear");
    assert!(filter_tiles(&tiles, "").len() >= 2);
}

#[test]
fn tiles_come_in_model_mcp_skill_worktree_order() {
    let mut ws = Workspace::new("p", "grok");
    ws.set_models(vec!["grok".into(), "mini".into()]);
    ws.mcp.push(McpRow {
        name: "github".into(),
        command: "npx".into(),
        transport: "stdio".into(),
        state: McpLife::Ready,
    });
    ws.set_skills(vec!["review".into()]);
    ws.worktrees.push("../wt-a".into());
    let tiles = integration_tiles(&ws);
    let ids: Vec<&str> = tiles.iter().map(|t| t.id.as_str()).collect();
    assert_eq!(ids, ["model:grok", "model:mini", "mcp:github", "skill:review", "git:0"]);
    assert_eq!(tiles[1].badge.text, "ready");
    assert_eq!(tiles[1].badge.tone, Tone::Neutral);
    assert_eq!(tiles[2].icon, "github-light");
    assert_eq!(tiles[2].subtitle, "stdio");
    assert_eq!(tiles[3].badge.text, "installed");
    assert_eq!(tiles[4].subtitle, "worktree");
}
