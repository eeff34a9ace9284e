# lucida-downloader

Downloads albums through lucida.to.

`src/` is the library: which albums are downloaded, what is asked of the site
and its servers, what each reply leads to, and where files go, as functions
from plain values to plain values with contracts that Verus proves.

- `startup`, `albums`: the queue of addresses, and the albums of an artist page
- `requests`, `downloaders`, `track_job`: what is asked of the site, what its
  replies lead to, and where the files go
- `clients`, `browser`, `browser_cookies`, `browser_pool`, `bypass`,
  `provisioning`: HTTP clients with a browser's cookies, and the helpers that
  get them
- `stats`: the summary of downloaded formats
- `text`, `text_utils`: text as sequences of characters
- `form`, `headers`, `json`: addresses, header maps and documents, and what is
  believed of `reqwest` and `serde_json`

The functions that wait for something outside take what happened as an event
and return what to do next. `app/` is the program around them: arguments,
files, processes and the network. A few things are decided there, without
proof: how names are made fit for the file system and track stems formed
(`text_utils`), which parts of an album page are read (`models`), and how
workers take albums and tracks from their queues (`workers`). That all workers
hold one client is the work of a lock in `browser_pool`.
